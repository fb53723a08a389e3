//! The Bosch M_CAN controller of the SAM V71, classic CAN only.
//!
//! The driver's decisions, register values and message RAM encodings. The
//! register and message RAM accesses themselves, cache maintenance and the
//! waits for the controller are the board's: the driver hands out the values
//! to write and the ordered steps to take, and takes back what was read.
//!
//! Message RAM layout, in 32-bit words: 4 standard filters (1 word each),
//! 4 extended filters (2 words each), 8 receive FIFO 0 elements and 4
//! transmit buffers (4 words each): 60 words, 240 bytes.
use vstd::prelude::*;
use crate::error::ErrorCode;
use crate::hil_can::{
    BitTiming, CanError, CanId, CanState, FilterParameters, Frame, IdentifierMode, OperationMode,
};
use crate::virtual_can::ClientCallback;

verus! {

pub const MCAN0_BASE: u32 = 0x4003_0000;
pub const MCAN1_BASE: u32 = 0x4003_4000;
pub const MCAN0_PID: u32 = 35;
pub const MCAN1_PID: u32 = 37;

/// CAN core clock: PCK5 = PLLA (300 MHz) / 15.
pub const CAN_CLK_HZ: u32 = 20_000_000;

pub const STD_FILTER_COUNT: usize = 4;
pub const EXT_FILTER_COUNT: usize = 4;
pub const RX_FIFO0_COUNT: usize = 8;
pub const TX_BUF_COUNT: usize = 4;
/// Words per classic CAN element: two header words, two data words.
pub const CAN_ELEMENT_WORDS: usize = 4;
pub const STD_FILTER_WORDS: usize = 4;
pub const EXT_FILTER_WORDS: usize = 8;
pub const FILTER_WORDS: usize = 12;
pub const RX_FIFO0_WORDS: usize = 32;
pub const TX_BUF_WORDS: usize = 16;
pub const MSG_RAM_WORDS: usize = 60;

pub const STD_FILTER_OFFSET: usize = 0;
pub const EXT_FILTER_OFFSET: usize = 4;
pub const RX_FIFO0_OFFSET: usize = 12;
pub const TX_BUF_OFFSET: usize = 44;

/// Filter element fields: identifier + mask type, store in FIFO 0, disabled.
pub const FILTER_TYPE_CLASSIC: u32 = 0b10;
pub const FILTER_CONFIG_FIFO0: u32 = 0b001;
pub const FILTER_CONFIG_DISABLED: u32 = 0b000;

pub const STD_ID_MASK: u32 = 0x7FF;
pub const EXT_ID_MASK: u32 = 0x1FFF_FFFF;

/// Interrupt register bits.
pub const IR_RF0N: u32 = 1 << 0;
pub const IR_RF0L: u32 = 1 << 3;
pub const IR_TC: u32 = 1 << 9;
pub const IR_TCF: u32 = 1 << 10;
pub const IR_EP: u32 = 1 << 22;
pub const IR_EW: u32 = 1 << 23;
pub const IR_BO: u32 = 1 << 24;
pub const IR_PEA: u32 = 1 << 26;
pub const IR_PED: u32 = 1 << 27;

/// Interrupt enable bits.
pub const IE_RF0NE: u32 = 1 << 0;
pub const IE_RF0LE: u32 = 1 << 3;
pub const IE_TCE: u32 = 1 << 9;
pub const IE_TCFE: u32 = 1 << 10;
pub const IE_PEAE: u32 = 1 << 26;

/// Control register bits.
pub const CCCR_INIT: u32 = 1 << 0;
pub const CCCR_CCE: u32 = 1 << 1;
pub const CCCR_CSR: u32 = 1 << 4;
pub const CCCR_MON: u32 = 1 << 5;
pub const CCCR_DAR: u32 = 1 << 6;
pub const CCCR_TEST: u32 = 1 << 7;
pub const CCCR_FDOE: u32 = 1 << 8;
pub const CCCR_BRSE: u32 = 1 << 9;

/// Loop-back bit of the test register.
pub const TEST_LBCK: u32 = 1 << 4;

/// Interrupt line 0 enable.
pub const ILE_EINT0: u32 = 1;

/// Byte offset of a message RAM word.
pub fn ram_byte_offset(word_index: usize) -> (r: u32)
    requires
        word_index <= MSG_RAM_WORDS,
    ensures
        r == word_index * 4,
{
    (word_index * 4) as u32
}

/// Whether the error is a state the controller is in (bus-off, error
/// passive, error warning) rather than what went wrong with one frame.
pub open spec fn spec_is_controller_state(e: CanError) -> bool {
    e == CanError::BusOff || e == CanError::Passive || e == CanError::Warning
}

/// Whether the error is a state the controller is in (bus-off, error
/// passive, error warning) rather than what went wrong with one frame.
pub fn is_controller_state(e: CanError) -> (r: bool)
    ensures
        r == spec_is_controller_state(e),
{
    match e {
        CanError::BusOff | CanError::Passive | CanError::Warning => true,
        _ => false,
    }
}

/// The error recorded in PSR.LEC for the last frame.
pub open spec fn spec_lec_error(lec: u32) -> CanError {
    if lec == 1 {
        CanError::Stuff
    } else if lec == 2 {
        CanError::Form
    } else if lec == 3 {
        CanError::Ack
    } else if lec == 4 {
        CanError::BitRecessive
    } else if lec == 5 {
        CanError::BitDominant
    } else if lec == 6 {
        CanError::Crc
    } else {
        CanError::SetBySoftware
    }
}

/// The error recorded in PSR.LEC for the last frame.
pub fn lec_error(lec: u32) -> (r: CanError)
    ensures
        r == spec_lec_error(lec),
{
    match lec {
        1 => CanError::Stuff,
        2 => CanError::Form,
        3 => CanError::Ack,
        4 => CanError::BitRecessive,
        5 => CanError::BitDominant,
        6 => CanError::Crc,
        _ => CanError::SetBySoftware,
    }
}

/// Four bytes packed little-endian into a word.
pub open spec fn pack4(b0: u8, b1: u8, b2: u8, b3: u8) -> u32 {
    (b0 as u32) | ((b1 as u32) << 8u32) | ((b2 as u32) << 16u32) | ((b3 as u32) << 24u32)
}

/// Byte `i` of a frame if it lies within `dlc`, else zero.
pub open spec fn byte_or_zero(data: Frame, i: int, dlc: nat) -> u8 {
    if i < dlc {
        data[i]
    } else {
        0u8
    }
}

/// The data length code of a classic frame: the length capped at 8.
pub open spec fn spec_dlc(len: usize) -> nat {
    if len > 8 {
        8
    } else {
        len as nat
    }
}

/// First header word of a transmit element: identifier and class bit.
pub open spec fn spec_tx_w0(id: CanId) -> u32 {
    match id {
        CanId::Standard(sid) => ((sid as u32) & 0x7FF) << 18u32,
        CanId::Extended(eid) => (eid & 0x1FFF_FFFF) | (1u32 << 30u32),
    }
}

/// The four words of a transmit element.
pub open spec fn spec_tx_element(id: CanId, data: Frame, len: usize) -> Seq<u32> {
    let dlc = spec_dlc(len);
    seq![
        spec_tx_w0(id),
        (dlc as u32) << 16u32,
        pack4(
            byte_or_zero(data, 0, dlc),
            byte_or_zero(data, 1, dlc),
            byte_or_zero(data, 2, dlc),
            byte_or_zero(data, 3, dlc),
        ),
        pack4(
            byte_or_zero(data, 4, dlc),
            byte_or_zero(data, 5, dlc),
            byte_or_zero(data, 6, dlc),
            byte_or_zero(data, 7, dlc),
        ),
    ]
}

/// Build the four words of a transmit element: identifier, data length
/// code (the length capped at 8), and the data bytes little-endian, zero
/// past the length.
pub fn encode_tx_element(id: CanId, data: &Frame, len: usize) -> (r: [u32; 4])
    ensures
        r@ == spec_tx_element(id, *data, len),
{
    let dlc: usize = if len > 8 {
        8
    } else {
        len
    };
    let w0: u32 = match id {
        CanId::Standard(sid) => ((sid as u32) & 0x7FF) << 18u32,
        CanId::Extended(eid) => (eid & 0x1FFF_FFFF) | (1u32 << 30u32),
    };
    let w1: u32 = (dlc as u32) << 16u32;
    let mut b = [0u8; 8];
    let mut i: usize = 0;
    while i < dlc
        invariant
            i <= dlc,
            dlc <= 8,
            dlc == spec_dlc(len),
            b@.len() == 8,
            forall|j: int| 0 <= j < 8 ==> b@[j] == if j < i {
                data@[j]
            } else {
                0u8
            },
        decreases dlc - i,
    {
        b[i] = data[i];
        i = i + 1;
    }
    assert(forall|j: int| 0 <= j < 8 ==> b@[j] == byte_or_zero(*data, j, spec_dlc(len)));
    let d0: u32 = (b[0] as u32) | ((b[1] as u32) << 8u32) | ((b[2] as u32) << 16u32) | ((
    b[3] as u32) << 24u32);
    let d1: u32 = (b[4] as u32) | ((b[5] as u32) << 8u32) | ((b[6] as u32) << 16u32) | ((
    b[7] as u32) << 24u32);
    let r = [w0, w1, d0, d1];
    assert(r@ =~= spec_tx_element(id, *data, len));
    r
}

/// The identifier in the first header word of a received element.
pub open spec fn spec_rx_id(w0: u32) -> CanId {
    if (w0 >> 30u32) & 1 == 0 {
        CanId::Standard(((w0 >> 18u32) & 0x7FF) as u16)
    } else {
        CanId::Extended(w0 & 0x1FFF_FFFF)
    }
}

/// The length of a received element: its data length code, capped at 8.
pub open spec fn spec_rx_len(w1: u32) -> nat {
    let dlc = (w1 >> 16u32) & 0xF;
    if dlc > 8 {
        8
    } else {
        dlc as nat
    }
}

/// Byte `i` of a received element's data, zero past its length.
pub open spec fn spec_rx_byte(d0: u32, d1: u32, i: int, len: nat) -> u8 {
    if i >= len {
        0u8
    } else if i < 4 {
        ((d0 >> (8 * i) as u32) & 0xFF) as u8
    } else {
        ((d1 >> (8 * (i - 4)) as u32) & 0xFF) as u8
    }
}

/// Decode a received element: identifier, data (zero past the length) and
/// length.
pub fn decode_rx_element(words: &[u32; 4]) -> (r: (CanId, Frame, usize))
    ensures
        r.0 == spec_rx_id(words@[0]),
        r.2 == spec_rx_len(words@[1]),
        forall|i: int| 0 <= i < 8 ==> r.1@[i] == spec_rx_byte(words@[2], words@[3], i, r.2 as nat),
{
    let w0 = words[0];
    let w1 = words[1];
    let d0 = words[2];
    let d1 = words[3];
    let id = if (w0 >> 30u32) & 1 == 0 {
        CanId::Standard(((w0 >> 18u32) & 0x7FF) as u16)
    } else {
        CanId::Extended(w0 & 0x1FFF_FFFF)
    };
    let dlc = ((w1 >> 16u32) & 0xF) as usize;
    let len: usize = if dlc > 8 {
        8
    } else {
        dlc
    };
    let mut data = [0u8; 8];
    let mut i: usize = 0;
    while i < len
        invariant
            i <= len,
            len <= 8,
            len == spec_rx_len(w1),
            data@.len() == 8,
            forall|j: int| 0 <= j < 8 ==> data@[j] == if j < i {
                spec_rx_byte(d0, d1, j, len as nat)
            } else {
                0u8
            },
        decreases len - i,
    {
        if i < 4 {
            data[i] = ((d0 >> ((i * 8) as u32)) & 0xFF) as u8;
        } else {
            data[i] = ((d1 >> (((i - 4) * 8) as u32)) & 0xFF) as u8;
        }
        i = i + 1;
    }
    (id, data, len)
}

proof fn lemma_unpack4(b0: u8, b1: u8, b2: u8, b3: u8)
    ensures
        ((pack4(b0, b1, b2, b3) >> 0u32) & 0xFF) as u8 == b0,
        ((pack4(b0, b1, b2, b3) >> 8u32) & 0xFF) as u8 == b1,
        ((pack4(b0, b1, b2, b3) >> 16u32) & 0xFF) as u8 == b2,
        ((pack4(b0, b1, b2, b3) >> 24u32) & 0xFF) as u8 == b3,
{
    assert(((((b0 as u32) | ((b1 as u32) << 8u32) | ((b2 as u32) << 16u32) | ((b3 as u32) << 24u32)) >> 0u32) & 0xFF) as u8 == b0) by (bit_vector);
    assert(((((b0 as u32) | ((b1 as u32) << 8u32) | ((b2 as u32) << 16u32) | ((b3 as u32) << 24u32)) >> 8u32) & 0xFF) as u8 == b1) by (bit_vector);
    assert(((((b0 as u32) | ((b1 as u32) << 8u32) | ((b2 as u32) << 16u32) | ((b3 as u32) << 24u32)) >> 16u32) & 0xFF) as u8 == b2) by (bit_vector);
    assert(((((b0 as u32) | ((b1 as u32) << 8u32) | ((b2 as u32) << 16u32) | ((b3 as u32) << 24u32)) >> 24u32) & 0xFF) as u8 == b3) by (bit_vector);
}

proof fn lemma_w0_roundtrip(id: CanId)
    ensures
        spec_rx_id(spec_tx_w0(id)) == match id {
            CanId::Standard(sid) => CanId::Standard(sid & 0x7FF),
            CanId::Extended(eid) => CanId::Extended(eid & 0x1FFF_FFFF),
        },
{
    match id {
        CanId::Standard(sid) => {
            let w = ((sid as u32) & 0x7FF) << 18u32;
            assert((w >> 30u32) & 1 == 0) by (bit_vector)
                requires
                    w == ((sid as u32) & 0x7FF) << 18u32,
            ;
            assert(((w >> 18u32) & 0x7FF) as u16 == sid & 0x7FF) by (bit_vector)
                requires
                    w == ((sid as u32) & 0x7FF) << 18u32,
            ;
        },
        CanId::Extended(eid) => {
            let w = (eid & 0x1FFF_FFFF) | (1u32 << 30u32);
            assert((w >> 30u32) & 1 == 1) by (bit_vector)
                requires
                    w == (eid & 0x1FFF_FFFF) | (1u32 << 30u32),
            ;
            assert(w & 0x1FFF_FFFF == eid & 0x1FFF_FFFF) by (bit_vector)
                requires
                    w == (eid & 0x1FFF_FFFF) | (1u32 << 30u32),
            ;
        },
    }
}

/// A frame written into a transmit element reads back, as a received
/// element, with the same identifier (within its width), the length capped
/// at 8, and the same data bytes up to that length.
pub proof fn tx_element_reads_back(id: CanId, data: Frame, len: usize)
    ensures
        ({
            let w = spec_tx_element(id, data, len);
            let rlen = spec_rx_len(w[1]);
            &&& spec_rx_id(w[0]) == match id {
                CanId::Standard(sid) => CanId::Standard(sid & 0x7FF),
                CanId::Extended(eid) => CanId::Extended(eid & 0x1FFF_FFFF),
            }
            &&& rlen == spec_dlc(len)
            &&& forall|i: int|
                0 <= i < 8 ==> spec_rx_byte(w[2], w[3], i, rlen) == byte_or_zero(data, i, rlen)
        }),
{
    let dlc = spec_dlc(len);
    let w = spec_tx_element(id, data, len);
    lemma_w0_roundtrip(id);
    let d = dlc as u32;
    assert(((d << 16u32) >> 16u32) & 0xF == d) by (bit_vector)
        requires
            d <= 8,
    ;
    lemma_unpack4(
        byte_or_zero(data, 0, dlc),
        byte_or_zero(data, 1, dlc),
        byte_or_zero(data, 2, dlc),
        byte_or_zero(data, 3, dlc),
    );
    lemma_unpack4(
        byte_or_zero(data, 4, dlc),
        byte_or_zero(data, 5, dlc),
        byte_or_zero(data, 6, dlc),
        byte_or_zero(data, 7, dlc),
    );
    assert forall|i: int| 0 <= i < 8 implies spec_rx_byte(w[2], w[3], i, dlc) == byte_or_zero(
        data,
        i,
        dlc,
    ) by {
        if i < dlc {
            if i == 0 {
            } else if i == 1 {
            } else if i == 2 {
            } else if i == 3 {
            } else if i == 4 {
            } else if i == 5 {
            } else if i == 6 {
            } else {
            }
        }
    }
}

/// The driver's view of the controller.
#[derive(Clone, Copy, Debug, PartialEq, Eq, Structural)]
pub enum McanState {
    Disabled,
    Running,
    Error(CanError),
}

/// The bus state reported for a driver state.
pub open spec fn spec_can_state(s: McanState) -> CanState {
    match s {
        McanState::Running => CanState::Running,
        McanState::Disabled => CanState::Disabled,
        McanState::Error(e) => CanState::Error(e),
    }
}

impl McanState {
    /// The bus state reported for this driver state.
    pub fn to_can_state(self) -> (r: CanState)
        ensures
            r == spec_can_state(self),
    {
        match self {
            McanState::Running => CanState::Running,
            McanState::Disabled => CanState::Disabled,
            McanState::Error(e) => CanState::Error(e),
        }
    }
}

/// A completion the driver reports through a deferred call.
#[derive(Clone, Copy, Debug, PartialEq, Eq, Structural)]
pub enum AsyncAction {
    Enable,
    EnableError(ErrorCode),
    Disable,
    AbortReceive,
}

/// One step of writing filter elements into message RAM.
#[derive(Clone, Copy, Debug, PartialEq, Eq, Structural)]
pub enum RamStep {
    /// Write `value` to message RAM word `index`.
    Write(usize, u32),
    /// Flush the filter region of message RAM out of the data cache.
    CleanFilterRegion,
}

/// Something the board must do for the driver, in order.
#[derive(Clone, Copy, Debug)]
pub enum McanAction {
    /// Deliver a callback to the driver's client.
    Callback(ClientCallback),
    /// Write the interrupt register (clears the bits written).
    WriteIr(u32),
    /// Drain receive FIFO 0 (see `rx_element`).
    DrainRxFifo,
    /// Set and clear interrupt enable bits.
    ModifyIe(u32, u32),
    /// Disable interrupts and request INIT mode.
    HwDisable,
    /// Request a deferred call.
    SetDeferredCall,
}

/// Register values for bringing the controller up.
#[derive(Clone, Debug)]
pub struct McanConfig {
    pub nbtp: u32,
    /// CCCR bits to clear, then bits to set, while in configuration mode.
    pub cccr_clear: u32,
    pub cccr_set: u32,
    /// Whether to set the loop-back bit of the test register.
    pub test_loopback: bool,
    pub sidfc: u32,
    pub xidfc: u32,
    pub rxf0c: u32,
    pub txbc: u32,
    pub rxesc: u32,
    pub txesc: u32,
    pub xidam: u32,
    pub gfc: u32,
    pub ie: u32,
    pub ils: u32,
    pub ile: u32,
    pub txbtie: u32,
    pub txbcie: u32,
    /// Message RAM contents: zero except for the filter elements.
    pub ram: Vec<u32>,
}

/// Nominal bit timing register value (each field cut to its width).
pub open spec fn spec_nbtp(t: BitTiming) -> u32 {
    ((t.sync_jump_width & 0x7F) << 25u32) | ((t.baud_rate_prescaler & 0x1FF) << 16u32) | (((
    t.segment1 as u32) & 0xFF) << 8u32) | ((t.segment2 as u32) & 0x7F)
}

/// Nominal bit timing register value (each field cut to its width).
pub fn nbtp_value(t: BitTiming) -> (r: u32)
    ensures
        r == spec_nbtp(t),
{
    ((t.sync_jump_width & 0x7F) << 25u32) | ((t.baud_rate_prescaler & 0x1FF) << 16u32) | (((
    t.segment1 as u32) & 0xFF) << 8u32) | ((t.segment2 as u32) & 0x7F)
}

/// A start-address field: the word address of a message RAM section.
pub open spec fn spec_start_field(base: u32, word: nat) -> u32 {
    ((((base + word * 4) as u32) >> 2u32) & 0x3FFF) << 2u32
}

/// CCCR bits cleared for the automatic-retransmission choice and mode.
pub open spec fn spec_cccr_clear(auto_retx: bool, mode: OperationMode) -> u32 {
    CCCR_FDOE | CCCR_BRSE | (if auto_retx {
        CCCR_DAR
    } else {
        0
    }) | match mode {
        OperationMode::Loopback => CCCR_MON,
        OperationMode::Monitoring => CCCR_TEST,
        OperationMode::Freeze => 0,
        OperationMode::Normal => CCCR_MON | CCCR_TEST | CCCR_CSR,
    }
}

/// CCCR bits set for the automatic-retransmission choice and mode.
pub open spec fn spec_cccr_set(auto_retx: bool, mode: OperationMode) -> u32 {
    (if auto_retx {
        0
    } else {
        CCCR_DAR
    }) | match mode {
        OperationMode::Loopback => CCCR_TEST,
        OperationMode::Monitoring => CCCR_MON,
        OperationMode::Freeze => CCCR_CSR,
        OperationMode::Normal => 0,
    }
}

/// A standard filter element: identifier and mask (the full 11 bits in list
/// mode), classic type, store in FIFO 0.
pub open spec fn spec_std_filter_word(id: u16, mode: IdentifierMode, mask: u32) -> u32 {
    let m = match mode {
        IdentifierMode::List => STD_ID_MASK,
        IdentifierMode::Mask => mask & STD_ID_MASK,
    };
    (FILTER_TYPE_CLASSIC << 30u32) | (FILTER_CONFIG_FIFO0 << 27u32) | (((id as u32) & STD_ID_MASK)
        << 16u32) | m
}

/// The two words of an extended filter element.
pub open spec fn spec_ext_filter_words(id: u32, mode: IdentifierMode, mask: u32) -> (u32, u32) {
    let m = match mode {
        IdentifierMode::List => EXT_ID_MASK,
        IdentifierMode::Mask => mask & EXT_ID_MASK,
    };
    ((FILTER_CONFIG_FIFO0 << 29u32) | (id & EXT_ID_MASK), (FILTER_TYPE_CLASSIC << 30u32) | m)
}

/// The steps that install a standard filter word.
pub open spec fn spec_std_steps(index: nat, word: u32) -> Seq<RamStep> {
    seq![RamStep::Write((STD_FILTER_OFFSET + index) as usize, word), RamStep::CleanFilterRegion]
}

/// The steps that install an extended filter element without a frame ever
/// matching half of the old and half of the new: disable, flush, write both
/// words, flush.
pub open spec fn spec_ext_steps(index: nat, w0: u32, w1: u32) -> Seq<RamStep> {
    let word = (EXT_FILTER_OFFSET + index * 2) as usize;
    seq![
        RamStep::Write(word, FILTER_CONFIG_DISABLED),
        RamStep::CleanFilterRegion,
        RamStep::Write((word + 1) as usize, w1),
        RamStep::Write(word, w0),
        RamStep::CleanFilterRegion,
    ]
}

/// The message RAM buffer the board sets aside for a controller: filters,
/// receive FIFO and transmit buffers, word by word.
pub struct MessageRam {
    pub words: [u32; 60],
}

impl MessageRam {
    /// A zeroed buffer.
    pub fn new() -> (r: MessageRam)
        ensures
            r.words@.len() == MSG_RAM_WORDS,
            forall|i: int| 0 <= i < MSG_RAM_WORDS ==> r.words@[i] == 0,
    {
        MessageRam { words: [0u32; 60] }
    }
}

/// The driver.
pub struct Mcan {
    /// Address of the controller's registers.
    pub regs_base: u32,
    /// Address of the message RAM buffer.
    pub msg_ram_base: u32,
    pub state: McanState,
    pub bit_timing: Option<BitTiming>,
    pub operating_mode: Option<OperationMode>,
    pub automatic_retransmission: bool,
    pub automatic_wake_up: bool,
    /// Whether a controller, transmit and receive client is registered.
    pub controller_client: bool,
    pub transmit_client: bool,
    pub receive_client: bool,
    pub tx_buffer: Option<Frame>,
    pub rx_buffer: Option<Frame>,
    /// Shadow of the filter region of message RAM, re-applied whenever
    /// message RAM is set up, so filters installed while disabled survive.
    pub filters: [u32; 12],
    pub deferred_action: Option<AsyncAction>,
    /// Actions for the board, oldest first.
    pub actions: Vec<McanAction>,
}

/// Only the action queue and filter shadow may differ.
pub open spec fn same_config(new: &Mcan, old: &Mcan) -> bool {
    &&& new.regs_base == old.regs_base
    &&& new.msg_ram_base == old.msg_ram_base
    &&& new.state == old.state
    &&& new.bit_timing == old.bit_timing
    &&& new.operating_mode == old.operating_mode
    &&& new.automatic_retransmission == old.automatic_retransmission
    &&& new.automatic_wake_up == old.automatic_wake_up
    &&& new.controller_client == old.controller_client
    &&& new.transmit_client == old.transmit_client
    &&& new.receive_client == old.receive_client
    &&& new.tx_buffer == old.tx_buffer
    &&& new.rx_buffer == old.rx_buffer
    &&& new.deferred_action == old.deferred_action
}

impl Mcan {
    /// The message RAM's addresses fit in 32 bits.
    pub open spec fn wf(&self) -> bool {
        self.msg_ram_base as int + MSG_RAM_WORDS * 4 <= u32::MAX
    }

    /// A disabled driver for the controller at `regs_base` over the message
    /// RAM at `msg_ram_base`, with every filter disabled and no
    /// configuration.
    pub fn new(regs_base: u32, msg_ram_base: u32) -> (r: Mcan)
        requires
            msg_ram_base as int + MSG_RAM_WORDS * 4 <= u32::MAX,
        ensures
            r.wf(),
            r.regs_base == regs_base,
            r.msg_ram_base == msg_ram_base,
            r.state == McanState::Disabled,
            r.bit_timing is None,
            r.operating_mode is None,
            !r.automatic_retransmission,
            !r.automatic_wake_up,
            !r.controller_client && !r.transmit_client && !r.receive_client,
            r.tx_buffer is None,
            r.rx_buffer is None,
            forall|i: int| 0 <= i < 12 ==> r.filters@[i] == 0,
            r.deferred_action is None,
            r.actions@.len() == 0,
    {
        Mcan {
            regs_base,
            msg_ram_base,
            state: McanState::Disabled,
            bit_timing: None,
            operating_mode: None,
            automatic_retransmission: false,
            automatic_wake_up: false,
            controller_client: false,
            transmit_client: false,
            receive_client: false,
            tx_buffer: None,
            rx_buffer: None,
            filters: [0u32; 12],
            deferred_action: None,
            actions: Vec::new(),
        }
    }

    /// The driver of MCAN1, over `msg_ram`, which lies at `msg_ram_base`.
    pub fn new_mcan1(msg_ram: &MessageRam, msg_ram_base: u32) -> (r: Mcan)
        requires
            msg_ram_base as int + MSG_RAM_WORDS * 4 <= u32::MAX,
        ensures
            r.wf(),
            r.regs_base == MCAN1_BASE,
            r.msg_ram_base == msg_ram_base,
            r.state == McanState::Disabled,
            r.actions@.len() == 0,
    {
        Mcan::new(MCAN1_BASE, msg_ram_base)
    }

    /// The driver of MCAN0, over `msg_ram`, which lies at `msg_ram_base`.
    pub fn new_mcan0(msg_ram: &MessageRam, msg_ram_base: u32) -> (r: Mcan)
        requires
            msg_ram_base as int + MSG_RAM_WORDS * 4 <= u32::MAX,
        ensures
            r.wf(),
            r.regs_base == MCAN0_BASE,
            r.msg_ram_base == msg_ram_base,
            r.state == McanState::Disabled,
            r.actions@.len() == 0,
    {
        Mcan::new(MCAN0_BASE, msg_ram_base)
    }

    /// Record a standard filter word (shadow first) and return the steps
    /// that write it into message RAM.
    fn write_std_filter(&mut self, index: usize, word: u32) -> (r: Vec<RamStep>)
        requires
            index < STD_FILTER_COUNT,
        ensures
            same_config(final(self), old(self)),
            final(self).actions@ == old(self).actions@,
            final(self).filters@ == old(self).filters@.update(index as int, word),
            r@ == spec_std_steps(index as nat, word),
    {
        self.filters[index] = word;
        let mut steps: Vec<RamStep> = Vec::new();
        steps.push(RamStep::Write(STD_FILTER_OFFSET + index, word));
        steps.push(RamStep::CleanFilterRegion);
        assert(steps@ =~= spec_std_steps(index as nat, word));
        steps
    }

    /// Record an extended filter element (shadow first) and return the
    /// steps that write it into message RAM.
    fn write_ext_filter(&mut self, index: usize, w0: u32, w1: u32) -> (r: Vec<RamStep>)
        requires
            index < EXT_FILTER_COUNT,
        ensures
            same_config(final(self), old(self)),
            final(self).actions@ == old(self).actions@,
            final(self).filters@ == old(self).filters@.update(
                STD_FILTER_WORDS + index * 2,
                w0,
            ).update(STD_FILTER_WORDS + index * 2 + 1, w1),
            r@ == spec_ext_steps(index as nat, w0, w1),
    {
        let shadow = STD_FILTER_WORDS + index * 2;
        let word = EXT_FILTER_OFFSET + index * 2;
        self.filters[shadow] = w0;
        self.filters[shadow + 1] = w1;
        let mut steps: Vec<RamStep> = Vec::new();
        steps.push(RamStep::Write(word, FILTER_CONFIG_DISABLED));
        steps.push(RamStep::CleanFilterRegion);
        steps.push(RamStep::Write(word + 1, w1));
        steps.push(RamStep::Write(word, w0));
        steps.push(RamStep::CleanFilterRegion);
        assert(steps@ =~= spec_ext_steps(index as nat, w0, w1));
        steps
    }

    /// Install a filter. Numbers `0..4` are the standard elements and `4..8`
    /// the extended ones; a number whose list does not match the class of
    /// the identifier, or a FIFO other than 0, is `INVAL` and changes
    /// nothing. Filters may be installed before or after enabling.
    pub fn enable_filter(&mut self, filter: FilterParameters) -> (r: Result<Vec<RamStep>, ErrorCode>)
        ensures
            same_config(final(self), old(self)),
            final(self).actions@ == old(self).actions@,
            ({
                let n = filter.number as int;
                if filter.fifo_number != 0 {
                    r == Err::<Vec<RamStep>, ErrorCode>(ErrorCode::INVAL) && final(self).filters
                        == old(self).filters
                } else {
                    match filter.id {
                        CanId::Standard(id) => if n >= 4 {
                            r == Err::<Vec<RamStep>, ErrorCode>(ErrorCode::INVAL) && final(self).filters == old(self).filters
                        } else {
                            let w = spec_std_filter_word(id, filter.identifier_mode, filter.mask);
                            &&& final(self).filters@ == old(self).filters@.update(n, w)
                            &&& r matches Ok(steps) && steps@ == spec_std_steps(n as nat, w)
                        },
                        CanId::Extended(id) => if n < 4 || n >= 8 {
                            r == Err::<Vec<RamStep>, ErrorCode>(ErrorCode::INVAL) && final(self).filters == old(self).filters
                        } else {
                            let (w0, w1) = spec_ext_filter_words(
                                id,
                                filter.identifier_mode,
                                filter.mask,
                            );
                            &&& final(self).filters@ == old(self).filters@.update(2 * n - 4, w0).update(
                                2 * n - 3,
                                w1,
                            )
                            &&& r matches Ok(steps) && steps@ == spec_ext_steps(
                                (n - 4) as nat,
                                w0,
                                w1,
                            )
                        },
                    }
                }
            }),
    {
        if filter.fifo_number != 0 {
            return Err(ErrorCode::INVAL);
        }
        let number = filter.number;
        match filter.id {
            CanId::Standard(id) => {
                if number >= 4 {
                    return Err(ErrorCode::INVAL);
                }
                let mask = match filter.identifier_mode {
                    IdentifierMode::List => STD_ID_MASK,
                    IdentifierMode::Mask => filter.mask & STD_ID_MASK,
                };
                let word = (FILTER_TYPE_CLASSIC << 30u32) | (FILTER_CONFIG_FIFO0 << 27u32) | (((
                id as u32) & STD_ID_MASK) << 16u32) | mask;
                Ok(self.write_std_filter(number as usize, word))
            },
            CanId::Extended(id) => {
                if number < 4 || number >= 8 {
                    return Err(ErrorCode::INVAL);
                }
                let mask = match filter.identifier_mode {
                    IdentifierMode::List => EXT_ID_MASK,
                    IdentifierMode::Mask => filter.mask & EXT_ID_MASK,
                };
                let w0 = (FILTER_CONFIG_FIFO0 << 29u32) | (id & EXT_ID_MASK);
                let w1 = (FILTER_TYPE_CLASSIC << 30u32) | mask;
                Ok(self.write_ext_filter((number - 4) as usize, w0, w1))
            },
        }
    }

    /// Disable a filter; `INVAL` beyond the eight elements.
    pub fn disable_filter(&mut self, number: u32) -> (r: Result<Vec<RamStep>, ErrorCode>)
        ensures
            same_config(final(self), old(self)),
            final(self).actions@ == old(self).actions@,
            number < 4 ==> final(self).filters@ == old(self).filters@.update(number as int, 0)
                && (r matches Ok(steps) && steps@ == spec_std_steps(number as nat, 0)),
            4 <= number < 8 ==> final(self).filters@ == old(self).filters@.update(
                2 * number - 4,
                0,
            ).update(2 * number - 3, 0) && (r matches Ok(steps) && steps@ == spec_ext_steps(
                (number - 4) as nat,
                0,
                0,
            )),
            number >= 8 ==> r == Err::<Vec<RamStep>, ErrorCode>(ErrorCode::INVAL) && final(self).filters == old(self).filters,
    {
        if number < 4 {
            Ok(self.write_std_filter(number as usize, FILTER_CONFIG_DISABLED))
        } else if number < 8 {
            Ok(self.write_ext_filter((number - 4) as usize, FILTER_CONFIG_DISABLED, FILTER_CONFIG_DISABLED))
        } else {
            Err(ErrorCode::INVAL)
        }
    }

    /// How many filters the controller has.
    pub fn filter_count(&self) -> (r: usize)
        ensures
            r == STD_FILTER_COUNT + EXT_FILTER_COUNT,
    {
        STD_FILTER_COUNT + EXT_FILTER_COUNT
    }
}

/// What the board writes to start a transmission.
#[derive(Clone, Copy, Debug)]
pub struct TxRequest {
    /// Index of the transmit buffer used.
    pub buffer_index: usize,
    /// First message RAM word of the element.
    pub element: usize,
    pub words: [u32; 4],
    /// Value for the transmit buffer add request register.
    pub txbar: u32,
}

/// The first transmit buffer whose bit is clear in `pending`.
pub open spec fn spec_free_tx_buf(pending: u32) -> Option<usize> {
    if pending & 1 == 0 {
        Some(0)
    } else if pending & 2 == 0 {
        Some(1)
    } else if pending & 4 == 0 {
        Some(2)
    } else if pending & 8 == 0 {
        Some(3)
    } else {
        None
    }
}

/// The first transmit buffer not pending transmission.
pub fn find_free_tx_buf(pending: u32) -> (r: Option<usize>)
    ensures
        r == spec_free_tx_buf(pending),
{
    if pending & 1 == 0 {
        Some(0)
    } else if pending & 2 == 0 {
        Some(1)
    } else if pending & 4 == 0 {
        Some(2)
    } else if pending & 8 == 0 {
        Some(3)
    } else {
        None
    }
}

/// The message RAM image set up on enabling: every word zero except the
/// filter elements, which are re-applied from the shadow.
pub open spec fn spec_ram_image(filters: [u32; 12]) -> Seq<u32> {
    Seq::new(MSG_RAM_WORDS as nat, |i: int| if i < FILTER_WORDS {
        filters[i]
    } else {
        0u32
    })
}

/// A callback for the client, if it is registered.
pub open spec fn opt_callback(present: bool, cb: ClientCallback) -> Seq<McanAction> {
    if present {
        seq![McanAction::Callback(cb)]
    } else {
        Seq::empty()
    }
}

/// The state after a frame was transmitted: a latched per-frame protocol
/// error is dropped, a controller state is kept.
pub open spec fn spec_state_after_tx(s: McanState) -> McanState {
    match s {
        McanState::Error(e) => if spec_is_controller_state(e) {
            s
        } else {
            McanState::Running
        },
        _ => s,
    }
}

/// Whether `c` is the bring-up configuration for `m`: its timing and mode,
/// the message RAM layout at its base, the fixed filtering and interrupt
/// set-up, and the RAM image with its filters.
pub open spec fn is_config_of(c: McanConfig, m: Mcan) -> bool {
    &&& c.nbtp == spec_nbtp(m.bit_timing.unwrap())
    &&& c.cccr_clear == spec_cccr_clear(m.automatic_retransmission, m.operating_mode.unwrap())
    &&& c.cccr_set == spec_cccr_set(m.automatic_retransmission, m.operating_mode.unwrap())
    &&& c.test_loopback == (m.operating_mode.unwrap() == OperationMode::Loopback)
    &&& c.sidfc == spec_start_field(m.msg_ram_base, STD_FILTER_OFFSET as nat) | (4u32 << 16u32)
    &&& c.xidfc == spec_start_field(m.msg_ram_base, EXT_FILTER_OFFSET as nat) | (4u32 << 16u32)
    &&& c.rxf0c == spec_start_field(m.msg_ram_base, RX_FIFO0_OFFSET as nat) | (8u32 << 16u32)
    &&& c.txbc == spec_start_field(m.msg_ram_base, TX_BUF_OFFSET as nat) | (4u32 << 16u32)
    &&& c.rxesc == 0
    &&& c.txesc == 0
    &&& c.xidam == EXT_ID_MASK
    &&& c.gfc == (2u32 << 4u32) | (2u32 << 2u32)
    &&& c.ie == IE_TCE | IE_TCFE | IE_PEAE
    &&& c.ils == 0
    &&& c.ile == ILE_EINT0
    &&& c.txbtie == 0xF
    &&& c.txbcie == 0xF
    &&& c.ram@ == spec_ram_image(m.filters)
}

impl Mcan {
    /// The register values and message RAM image for bringing the
    /// controller up with the configured timing and mode.
    pub fn config(&self) -> (r: McanConfig)
        requires
            self.wf(),
            self.bit_timing is Some,
            self.operating_mode is Some,
        ensures
            is_config_of(r, *self),
            r.cccr_set & CCCR_DAR != 0 <==> !self.automatic_retransmission,
            r.cccr_clear & CCCR_DAR != 0 <==> self.automatic_retransmission,
    {
        proof {
            retransmission_choice_in_cccr(
                self.automatic_retransmission,
                self.operating_mode.unwrap(),
            );
        }
        let timing = self.bit_timing.unwrap();
        let mode = self.operating_mode.unwrap();
        let base = self.msg_ram_base;
        let retx_clear: u32 = if self.automatic_retransmission {
            CCCR_DAR
        } else {
            0
        };
        let retx_set: u32 = if self.automatic_retransmission {
            0
        } else {
            CCCR_DAR
        };
        let (mode_clear, mode_set): (u32, u32) = match mode {
            OperationMode::Loopback => (CCCR_MON, CCCR_TEST),
            OperationMode::Monitoring => (CCCR_TEST, CCCR_MON),
            OperationMode::Freeze => (0, CCCR_CSR),
            OperationMode::Normal => (CCCR_MON | CCCR_TEST | CCCR_CSR, 0),
        };
        let test_loopback = match mode {
            OperationMode::Loopback => true,
            _ => false,
        };
        let mut ram: Vec<u32> = Vec::new();
        let mut i: usize = 0;
        while i < MSG_RAM_WORDS
            invariant
                i <= MSG_RAM_WORDS,
                ram@.len() == i,
                forall|j: int| 0 <= j < i ==> ram@[j] == spec_ram_image(self.filters)[j],
            decreases MSG_RAM_WORDS - i,
        {
            if i < FILTER_WORDS {
                ram.push(self.filters[i]);
            } else {
                ram.push(0);
            }
            i = i + 1;
        }
        assert(ram@ =~= spec_ram_image(self.filters));
        assert((1u32 << 4u32) == 16) by (bit_vector);
        McanConfig {
            nbtp: nbtp_value(timing),
            cccr_clear: CCCR_FDOE | CCCR_BRSE | retx_clear | mode_clear,
            cccr_set: retx_set | mode_set,
            test_loopback,
            sidfc: (((base + ram_byte_offset(STD_FILTER_OFFSET)) >> 2u32) & 0x3FFF) << 2u32 | (4u32
                << 16u32),
            xidfc: (((base + ram_byte_offset(EXT_FILTER_OFFSET)) >> 2u32) & 0x3FFF) << 2u32 | (4u32
                << 16u32),
            rxf0c: (((base + ram_byte_offset(RX_FIFO0_OFFSET)) >> 2u32) & 0x3FFF) << 2u32 | (8u32
                << 16u32),
            txbc: (((base + ram_byte_offset(TX_BUF_OFFSET)) >> 2u32) & 0x3FFF) << 2u32 | (4u32
                << 16u32),
            rxesc: 0,
            txesc: 0,
            xidam: EXT_ID_MASK,
            gfc: (2u32 << 4u32) | (2u32 << 2u32),
            ie: IE_TCE | IE_TCFE | IE_PEAE,
            ils: 0,
            ile: ILE_EINT0,
            txbtie: (1u32 << 4u32) - 1,
            txbcie: (1u32 << 4u32) - 1,
            ram,
        }
    }

    /// Set the bit timing; only while disabled, else `BUSY`.
    pub fn set_bit_timing(&mut self, bit_timing: BitTiming) -> (r: Result<(), ErrorCode>)
        ensures
            old(self).state == McanState::Disabled ==> r is Ok && *final(self) == (Mcan {
                bit_timing: Some(bit_timing),
                ..*old(self)
            }),
            old(self).state != McanState::Disabled ==> r == Err::<(), ErrorCode>(ErrorCode::BUSY)
                && *final(self) == *old(self),
    {
        match self.state {
            McanState::Disabled => {
                self.bit_timing = Some(bit_timing);
                Ok(())
            },
            _ => Err(ErrorCode::BUSY),
        }
    }

    /// Set the operation mode; only while disabled, else `BUSY`.
    pub fn set_operation_mode(&mut self, mode: OperationMode) -> (r: Result<(), ErrorCode>)
        ensures
            old(self).state == McanState::Disabled ==> r is Ok && *final(self) == (Mcan {
                operating_mode: Some(mode),
                ..*old(self)
            }),
            old(self).state != McanState::Disabled ==> r == Err::<(), ErrorCode>(ErrorCode::BUSY)
                && *final(self) == *old(self),
    {
        match self.state {
            McanState::Disabled => {
                self.operating_mode = Some(mode);
                Ok(())
            },
            _ => Err(ErrorCode::BUSY),
        }
    }

    /// Choose automatic retransmission; only while disabled, else `BUSY`.
    pub fn set_automatic_retransmission(&mut self, automatic: bool) -> (r: Result<(), ErrorCode>)
        ensures
            old(self).state == McanState::Disabled ==> r is Ok && *final(self) == (Mcan {
                automatic_retransmission: automatic,
                ..*old(self)
            }),
            old(self).state != McanState::Disabled ==> r == Err::<(), ErrorCode>(ErrorCode::BUSY)
                && *final(self) == *old(self),
    {
        match self.state {
            McanState::Disabled => {
                self.automatic_retransmission = automatic;
                Ok(())
            },
            _ => Err(ErrorCode::BUSY),
        }
    }

    /// Choose automatic wake-up; only while disabled, else `BUSY`.
    pub fn set_wake_up(&mut self, wake_up: bool) -> (r: Result<(), ErrorCode>)
        ensures
            old(self).state == McanState::Disabled ==> r is Ok && *final(self) == (Mcan {
                automatic_wake_up: wake_up,
                ..*old(self)
            }),
            old(self).state != McanState::Disabled ==> r == Err::<(), ErrorCode>(ErrorCode::BUSY)
                && *final(self) == *old(self),
    {
        match self.state {
            McanState::Disabled => {
                self.automatic_wake_up = wake_up;
                Ok(())
            },
            _ => Err(ErrorCode::BUSY),
        }
    }

    /// The configured bit timing; `INVAL` if none.
    pub fn get_bit_timing(&self) -> (r: Result<BitTiming, ErrorCode>)
        ensures
            match self.bit_timing {
                Some(t) => r == Ok::<BitTiming, ErrorCode>(t),
                None => r == Err::<BitTiming, ErrorCode>(ErrorCode::INVAL),
            },
    {
        match self.bit_timing {
            Some(t) => Ok(t),
            None => Err(ErrorCode::INVAL),
        }
    }

    /// The configured operation mode; `INVAL` if none.
    pub fn get_operation_mode(&self) -> (r: Result<OperationMode, ErrorCode>)
        ensures
            match self.operating_mode {
                Some(m) => r == Ok::<OperationMode, ErrorCode>(m),
                None => r == Err::<OperationMode, ErrorCode>(ErrorCode::INVAL),
            },
    {
        match self.operating_mode {
            Some(m) => Ok(m),
            None => Err(ErrorCode::INVAL),
        }
    }

    /// Whether automatic retransmission is chosen.
    pub fn get_automatic_retransmission(&self) -> (r: Result<bool, ErrorCode>)
        ensures
            r == Ok::<bool, ErrorCode>(self.automatic_retransmission),
    {
        Ok(self.automatic_retransmission)
    }

    /// Whether automatic wake-up is chosen.
    pub fn get_wake_up(&self) -> (r: Result<bool, ErrorCode>)
        ensures
            r == Ok::<bool, ErrorCode>(self.automatic_wake_up),
    {
        Ok(self.automatic_wake_up)
    }

    /// Receive FIFOs in use.
    pub fn receive_fifo_count(&self) -> (r: usize)
        ensures
            r == 1,
    {
        1
    }

    /// The bus state.
    pub fn get_state(&self) -> (r: Result<CanState, ErrorCode>)
        ensures
            r == Ok::<CanState, ErrorCode>(spec_can_state(self.state)),
    {
        Ok(self.state.to_can_state())
    }

    /// Register the controller, transmit and receive clients.
    pub fn set_clients(&mut self, controller: bool, transmit: bool, receive: bool)
        ensures
            *final(self) == (Mcan {
                controller_client: controller,
                transmit_client: transmit,
                receive_client: receive,
                ..*old(self)
            }),
    {
        self.controller_client = controller;
        self.transmit_client = transmit;
        self.receive_client = receive;
    }

    /// Ask for the controller to be enabled. From the disabled state, with
    /// timing and mode configured and no completion pending, the answer is
    /// the configuration to bring up; the board runs the bring-up and
    /// reports its outcome to `enable_finished`. Otherwise: `INVAL` without
    /// timing or mode, `BUSY` with a completion pending, `ALREADY` when
    /// running, `FAIL` in an error state.
    pub fn enable(&self) -> (r: Result<McanConfig, ErrorCode>)
        requires
            self.wf(),
        ensures
            match self.state {
                McanState::Disabled => if self.bit_timing is None || self.operating_mode is None {
                    r matches Err(e) && e == ErrorCode::INVAL
                } else if self.deferred_action is Some {
                    r matches Err(e) && e == ErrorCode::BUSY
                } else {
                    r matches Ok(c) && is_config_of(c, *self)
                },
                McanState::Running => r matches Err(e) && e == ErrorCode::ALREADY,
                McanState::Error(_) => r matches Err(e) && e == ErrorCode::FAIL,
            },
    {
        match self.state {
            McanState::Disabled => {
                if self.bit_timing.is_none() || self.operating_mode.is_none() {
                    return Err(ErrorCode::INVAL);
                }
                if self.deferred_action.is_some() {
                    return Err(ErrorCode::BUSY);
                }
                Ok(self.config())
            },
            McanState::Running => Err(ErrorCode::ALREADY),
            McanState::Error(_) => Err(ErrorCode::FAIL),
        }
    }

    /// The board reports the outcome of bringing the controller up: the
    /// driver is running on success, and either way the outcome is reported
    /// to the client through a deferred call.
    pub fn enable_finished(&mut self, hw: Result<(), ErrorCode>)
        ensures
            final(self).state == if hw is Ok {
                McanState::Running
            } else {
                old(self).state
            },
            final(self).deferred_action == Some(
                match hw {
                    Ok(()) => AsyncAction::Enable,
                    Err(e) => AsyncAction::EnableError(e),
                },
            ),
            final(self).actions@ == old(self).actions@.push(McanAction::SetDeferredCall),
            final(self).filters == old(self).filters,
            final(self).tx_buffer == old(self).tx_buffer,
            final(self).rx_buffer == old(self).rx_buffer,
            final(self).bit_timing == old(self).bit_timing,
            final(self).operating_mode == old(self).operating_mode,
            final(self).msg_ram_base == old(self).msg_ram_base,
    {
        match hw {
            Ok(()) => {
                self.state = McanState::Running;
                self.deferred_action = Some(AsyncAction::Enable);
            },
            Err(e) => {
                self.deferred_action = Some(AsyncAction::EnableError(e));
            },
        }
        self.actions.push(McanAction::SetDeferredCall);
    }

    /// Disable the controller. When running or in an error state the
    /// hardware is stopped and the driver is disabled; the completion is
    /// reported later, or `BUSY` if another completion is pending. `OFF`
    /// when already disabled.
    pub fn disable(&mut self) -> (r: Result<(), ErrorCode>)
        ensures
            final(self).filters == old(self).filters,
            final(self).tx_buffer == old(self).tx_buffer,
            final(self).rx_buffer == old(self).rx_buffer,
            final(self).msg_ram_base == old(self).msg_ram_base,
            old(self).state == McanState::Disabled ==> r == Err::<(), ErrorCode>(ErrorCode::OFF)
                && *final(self) == *old(self),
            old(self).state != McanState::Disabled ==> {
                &&& final(self).state == McanState::Disabled
                &&& if old(self).deferred_action is Some {
                    &&& r == Err::<(), ErrorCode>(ErrorCode::BUSY)
                    &&& final(self).deferred_action == old(self).deferred_action
                    &&& final(self).actions@ == old(self).actions@.push(McanAction::HwDisable)
                } else {
                    &&& r is Ok
                    &&& final(self).deferred_action == Some(AsyncAction::Disable)
                    &&& final(self).actions@ == old(self).actions@.push(McanAction::HwDisable).push(
                        McanAction::SetDeferredCall,
                    )
                }
            },
    {
        match self.state {
            McanState::Disabled => Err(ErrorCode::OFF),
            _ => {
                self.actions.push(McanAction::HwDisable);
                self.state = McanState::Disabled;
                if self.deferred_action.is_some() {
                    return Err(ErrorCode::BUSY);
                }
                self.deferred_action = Some(AsyncAction::Disable);
                self.actions.push(McanAction::SetDeferredCall);
                Ok(())
            },
        }
    }

    /// Send a frame, given the transmit buffers pending transmission. The
    /// frame goes into the first free buffer, and the buffer is kept until
    /// the transmission completes. `BUSY` with every buffer pending, `OFF`
    /// when disabled.
    pub fn send(&mut self, id: CanId, buffer: Frame, len: usize, pending: u32) -> (r: Result<
        TxRequest,
        (ErrorCode, Frame),
    >)
        ensures
            final(self).actions@ == old(self).actions@,
            final(self).state == old(self).state,
            final(self).rx_buffer == old(self).rx_buffer,
            final(self).deferred_action == old(self).deferred_action,
            final(self).filters == old(self).filters,
            old(self).state == McanState::Disabled ==> r == Err::<TxRequest, (ErrorCode, Frame)>(
                (ErrorCode::OFF, buffer),
            ) && *final(self) == *old(self),
            old(self).state != McanState::Disabled ==> match spec_free_tx_buf(pending) {
                None => r == Err::<TxRequest, (ErrorCode, Frame)>((ErrorCode::BUSY, buffer))
                    && *final(self) == *old(self),
                Some(i) => r matches Ok(req) && req.buffer_index == i && req.element
                    == TX_BUF_OFFSET + i * CAN_ELEMENT_WORDS && req.words@ == spec_tx_element(
                    id,
                    buffer,
                    len,
                ) && req.txbar == (1u32 << i as u32) && final(self).tx_buffer == Some(buffer),
            },
    {
        match self.state {
            McanState::Disabled => Err((ErrorCode::OFF, buffer)),
            _ => match find_free_tx_buf(pending) {
                None => Err((ErrorCode::BUSY, buffer)),
                Some(i) => {
                    let words = encode_tx_element(id, &buffer, len);
                    self.tx_buffer = Some(buffer);
                    Ok(
                        TxRequest {
                            buffer_index: i,
                            element: TX_BUF_OFFSET + i * CAN_ELEMENT_WORDS,
                            words,
                            txbar: 1u32 << (i as u32),
                        },
                    )
                },
            },
        }
    }

    /// Start receiving into `buffer`: the receive interrupts are enabled,
    /// which also drains anything that arrived meanwhile. `OFF` when
    /// disabled.
    pub fn start_receive_process(&mut self, buffer: Frame) -> (r: Result<(), (ErrorCode, Frame)>)
        ensures
            old(self).state == McanState::Disabled ==> r == Err::<(), (ErrorCode, Frame)>(
                (ErrorCode::OFF, buffer),
            ) && *final(self) == *old(self),
            old(self).state != McanState::Disabled ==> r is Ok && *final(self) == (Mcan {
                rx_buffer: Some(buffer),
                actions: final(self).actions,
                ..*old(self)
            }) && final(self).actions@ == old(self).actions@.push(
                McanAction::ModifyIe(IE_RF0NE | IE_RF0LE, 0),
            ),
    {
        match self.state {
            McanState::Disabled => Err((ErrorCode::OFF, buffer)),
            _ => {
                self.rx_buffer = Some(buffer);
                self.actions.push(McanAction::ModifyIe(IE_RF0NE | IE_RF0LE, 0));
                Ok(())
            },
        }
    }

    /// Stop receiving: the receive interrupts are disabled and the buffer
    /// goes back through a deferred call. `BUSY` with a completion pending,
    /// `ALREADY` when not receiving, `OFF` when disabled.
    pub fn stop_receive(&mut self) -> (r: Result<(), ErrorCode>)
        ensures
            old(self).state == McanState::Disabled ==> r == Err::<(), ErrorCode>(ErrorCode::OFF)
                && *final(self) == *old(self),
            old(self).state != McanState::Disabled && old(self).deferred_action is Some ==> r
                == Err::<(), ErrorCode>(ErrorCode::BUSY) && *final(self) == *old(self),
            old(self).state != McanState::Disabled && old(self).deferred_action is None
                && old(self).rx_buffer is None ==> r == Err::<(), ErrorCode>(ErrorCode::ALREADY)
                && *final(self) == *old(self),
            old(self).state != McanState::Disabled && old(self).deferred_action is None
                && old(self).rx_buffer is Some ==> r is Ok && *final(self) == (Mcan {
                deferred_action: Some(AsyncAction::AbortReceive),
                actions: final(self).actions,
                ..*old(self)
            }) && final(self).actions@ == old(self).actions@.push(
                McanAction::ModifyIe(0, IE_RF0NE | IE_RF0LE),
            ).push(McanAction::SetDeferredCall),
    {
        match self.state {
            McanState::Disabled => Err(ErrorCode::OFF),
            _ => {
                if self.deferred_action.is_some() {
                    return Err(ErrorCode::BUSY);
                }
                if self.rx_buffer.is_none() {
                    return Err(ErrorCode::ALREADY);
                }
                self.actions.push(McanAction::ModifyIe(0, IE_RF0NE | IE_RF0LE));
                self.deferred_action = Some(AsyncAction::AbortReceive);
                self.actions.push(McanAction::SetDeferredCall);
                Ok(())
            },
        }
    }
}

/// How many times the board reads the control register while waiting for
/// the controller to enter or leave configuration (INIT) mode.
pub const INIT_POLLS: usize = 20_000;

/// The next step while waiting for the controller's INIT bit.
#[derive(Clone, Copy, Debug, PartialEq, Eq, Structural)]
pub enum InitWait {
    /// The INIT bit reached the wanted value.
    Reached,
    /// Read the control register again.
    Again,
    /// `INIT_POLLS` reads went by without it: the enable fails with `FAIL`.
    TimedOut,
}

/// One read of the control register `cccr` while waiting for its INIT bit
/// to be set (`entering` configuration mode) or cleared, after `reads`
/// earlier reads.
pub fn init_wait(cccr: u32, entering: bool, reads: usize) -> (r: InitWait)
    ensures
        reads >= INIT_POLLS ==> r == InitWait::TimedOut,
        reads < INIT_POLLS && ((cccr & CCCR_INIT != 0) == entering) ==> r == InitWait::Reached,
        reads < INIT_POLLS && ((cccr & CCCR_INIT != 0) != entering) ==> r == InitWait::Again,
{
    if reads >= INIT_POLLS {
        InitWait::TimedOut
    } else if (cccr & CCCR_INIT != 0) == entering {
        InitWait::Reached
    } else {
        InitWait::Again
    }
}

/// The fill level field of the receive FIFO 0 status register.
pub open spec fn spec_fifo_fill(rxf0s: u32) -> u32 {
    rxf0s & 0x7F
}

/// The get index field of the receive FIFO 0 status register.
pub open spec fn spec_fifo_get_index(rxf0s: u32) -> u32 {
    (rxf0s >> 8u32) & 0x3F
}

/// The message RAM layout: 4 one-word standard filters, 4 two-word
/// extended filters, 8 four-word receive FIFO 0 elements and 4 four-word
/// transmit buffers, back to back: 240 bytes.
pub proof fn message_ram_layout()
    ensures
        STD_FILTER_OFFSET == 0 && STD_FILTER_WORDS == STD_FILTER_COUNT * 1,
        EXT_FILTER_OFFSET == STD_FILTER_OFFSET + STD_FILTER_WORDS && EXT_FILTER_WORDS
            == EXT_FILTER_COUNT * 2,
        RX_FIFO0_OFFSET == EXT_FILTER_OFFSET + EXT_FILTER_WORDS && RX_FIFO0_WORDS == RX_FIFO0_COUNT
            * CAN_ELEMENT_WORDS && RX_FIFO0_COUNT == 8,
        TX_BUF_OFFSET == RX_FIFO0_OFFSET + RX_FIFO0_WORDS && TX_BUF_WORDS == TX_BUF_COUNT
            * CAN_ELEMENT_WORDS,
        MSG_RAM_WORDS == TX_BUF_OFFSET + TX_BUF_WORDS,
        MSG_RAM_WORDS * 4 == 240,
{
}

/// The first message RAM word of receive FIFO element `get_index`.
pub fn rx_element_base(get_index: u32) -> (r: usize)
    requires
        get_index < RX_FIFO0_COUNT,
    ensures
        r == RX_FIFO0_OFFSET + get_index * CAN_ELEMENT_WORDS,
        r + CAN_ELEMENT_WORDS <= TX_BUF_OFFSET,
{
    RX_FIFO0_OFFSET + (get_index as usize) * CAN_ELEMENT_WORDS
}

/// The effect of a successful transmission: the state after it, the
/// transmit buffer left, and the actions.
pub open spec fn spec_tx_done(m: Mcan) -> (McanState, Option<Frame>, Seq<McanAction>) {
    let state = spec_state_after_tx(m.state);
    if m.transmit_client && m.tx_buffer is Some {
        (
            state,
            None,
            seq![
                McanAction::Callback(
                    ClientCallback::TransmitComplete(Ok(()), m.tx_buffer.unwrap()),
                ),
            ],
        )
    } else {
        (state, m.tx_buffer, Seq::empty())
    }
}

/// The transmit buffer handed back with `status`, if there is a client
/// to take it.
pub open spec fn spec_tx_abort(m: Mcan, status: Result<(), CanError>) -> (
    Option<Frame>,
    Seq<McanAction>,
) {
    if m.transmit_client && m.tx_buffer is Some {
        (
            None,
            seq![
                McanAction::Callback(ClientCallback::TransmitComplete(status, m.tx_buffer.unwrap())),
            ],
        )
    } else {
        (m.tx_buffer, Seq::empty())
    }
}

impl Mcan {
    fn push_callback(&mut self, present: bool, cb: ClientCallback)
        ensures
            *final(self) == (Mcan { actions: final(self).actions, ..*old(self) }),
            final(self).actions@ == old(self).actions@ + opt_callback(present, cb),
    {
        if present {
            self.actions.push(McanAction::Callback(cb));
        }
        assert(self.actions@ =~= old(self).actions@ + opt_callback(present, cb));
    }

    /// A frame was transmitted and acknowledged: it succeeded, whatever went
    /// wrong before, so a latched per-frame error is dropped (a controller
    /// state stays), and the transmit buffer goes back to the client.
    pub fn handle_tx_complete(&mut self)
        ensures
            ({
                let (state, txb, acts) = spec_tx_done(*old(self));
                &&& final(self).state == state
                &&& final(self).tx_buffer == txb
                &&& final(self).actions@ == old(self).actions@ + acts
                &&& *final(self) == (Mcan {
                    state: final(self).state,
                    tx_buffer: final(self).tx_buffer,
                    actions: final(self).actions,
                    ..*old(self)
                })
            }),
    {
        if let McanState::Error(e) = self.state {
            if !is_controller_state(e) {
                self.state = McanState::Running;
            }
        }
        if self.transmit_client {
            if let Some(buf) = self.tx_buffer.take() {
                self.actions.push(
                    McanAction::Callback(ClientCallback::TransmitComplete(Ok(()), buf)),
                );
            }
        }
        assert(self.actions@ =~= old(self).actions@ + spec_tx_done(*old(self)).2);
    }

    /// Hand the transmit buffer back to the client with `status`.
    fn abort_tx(&mut self, status: Result<(), CanError>)
        ensures
            ({
                let (txb, acts) = spec_tx_abort(*old(self), status);
                &&& final(self).tx_buffer == txb
                &&& final(self).actions@ == old(self).actions@ + acts
                &&& *final(self) == (Mcan {
                    tx_buffer: final(self).tx_buffer,
                    actions: final(self).actions,
                    ..*old(self)
                })
            }),
    {
        if self.transmit_client {
            if let Some(buf) = self.tx_buffer.take() {
                self.actions.push(McanAction::Callback(ClientCallback::TransmitComplete(status, buf)));
            }
        }
        assert(self.actions@ =~= old(self).actions@ + spec_tx_abort(*old(self), status).1);
    }

    /// Move to an error state and tell the client.
    fn enter_error(&mut self, e: CanError)
        ensures
            final(self).state == McanState::Error(e),
            final(self).actions@ == old(self).actions@ + opt_callback(
                old(self).controller_client,
                ClientCallback::StateChanged(CanState::Error(e)),
            ),
            *final(self) == (Mcan {
                state: final(self).state,
                actions: final(self).actions,
                ..*old(self)
            }),
    {
        self.state = McanState::Error(e);
        let present = self.controller_client;
        self.push_callback(present, ClientCallback::StateChanged(CanState::Error(e)));
    }

    /// Handle an interrupt, given the interrupt register and (read only when
    /// a protocol error is flagged) the last error code. Flags are
    /// acknowledged and handled in order: transmission complete,
    /// transmission cancelled, new frames (drained by the board), frames
    /// lost, bus-off, error passive, error warning, protocol error.
    pub fn handle_interrupt(&mut self, ir: u32, lec: u32)
        ensures
            ({
                let x = spec_interrupt(*old(self), ir, lec);
                &&& final(self).state == x.0
                &&& final(self).tx_buffer == x.1
                &&& final(self).actions@ == old(self).actions@ + x.2
                &&& *final(self) == (Mcan {
                    state: final(self).state,
                    tx_buffer: final(self).tx_buffer,
                    actions: final(self).actions,
                    ..*old(self)
                })
            }),
    {
        let ghost base = *old(self);
        let ghost x0: IrqStep = (old(self).state, old(self).tx_buffer, Seq::empty());
        assert(self.actions@ =~= base.actions@ + x0.2);
        self.irq_tc(ir, Ghost(base), Ghost(x0));
        let ghost x1 = stage_tc(base, x0, ir);
        self.irq_tcf(ir, Ghost(base), Ghost(x1));
        let ghost x2 = stage_tcf(base, x1, ir);
        self.irq_rx(ir, Ghost(base), Ghost(x2));
        let ghost x3 = stage_rx(x2, ir);
        self.irq_err(ir, IR_BO, CanError::BusOff, Ghost(base), Ghost(x3));
        let ghost x4 = stage_err(base, x3, ir, IR_BO, CanError::BusOff);
        self.irq_err(ir, IR_EP, CanError::Passive, Ghost(base), Ghost(x4));
        let ghost x5 = stage_err(base, x4, ir, IR_EP, CanError::Passive);
        self.irq_err(ir, IR_EW, CanError::Warning, Ghost(base), Ghost(x5));
        let ghost x6 = stage_err(base, x5, ir, IR_EW, CanError::Warning);
        self.irq_pe(ir, lec, Ghost(base), Ghost(x6));
    }

    fn irq_tc(&mut self, ir: u32, Ghost(base): Ghost<Mcan>, Ghost(x): Ghost<IrqStep>)
        requires
            at_step(*old(self), base, x),
        ensures
            at_step(*final(self), base, stage_tc(base, x, ir)),
    {
        if ir & IR_TC != 0 {
            self.actions.push(McanAction::WriteIr(IR_TC));
            self.handle_tx_complete();
            assert(self.actions@ =~= base.actions@ + stage_tc(base, x, ir).2);
        }
    }

    fn irq_tcf(&mut self, ir: u32, Ghost(base): Ghost<Mcan>, Ghost(x): Ghost<IrqStep>)
        requires
            at_step(*old(self), base, x),
        ensures
            at_step(*final(self), base, stage_tcf(base, x, ir)),
    {
        if ir & IR_TCF != 0 {
            self.actions.push(McanAction::WriteIr(IR_TCF));
            self.abort_tx(Err(CanError::SetBySoftware));
            assert(self.actions@ =~= base.actions@ + stage_tcf(base, x, ir).2);
        }
    }

    fn irq_rx(&mut self, ir: u32, Ghost(base): Ghost<Mcan>, Ghost(x): Ghost<IrqStep>)
        requires
            at_step(*old(self), base, x),
        ensures
            at_step(*final(self), base, stage_rx(x, ir)),
    {
        if ir & IR_RF0N != 0 {
            self.actions.push(McanAction::WriteIr(IR_RF0N));
            self.actions.push(McanAction::DrainRxFifo);
        }
        if ir & IR_RF0L != 0 {
            self.actions.push(McanAction::WriteIr(IR_RF0L));
        }
        assert(self.actions@ =~= base.actions@ + stage_rx(x, ir).2);
    }

    fn irq_err(
        &mut self,
        ir: u32,
        bit: u32,
        e: CanError,
        Ghost(base): Ghost<Mcan>,
        Ghost(x): Ghost<IrqStep>,
    )
        requires
            at_step(*old(self), base, x),
        ensures
            at_step(*final(self), base, stage_err(base, x, ir, bit, e)),
    {
        if ir & bit != 0 {
            self.actions.push(McanAction::WriteIr(bit));
            self.enter_error(e);
            assert(self.actions@ =~= base.actions@ + stage_err(base, x, ir, bit, e).2);
        }
    }

    fn irq_pe(&mut self, ir: u32, lec: u32, Ghost(base): Ghost<Mcan>, Ghost(x): Ghost<IrqStep>)
        requires
            at_step(*old(self), base, x),
        ensures
            at_step(*final(self), base, stage_pe(base, x, ir, lec)),
    {
        if ir & IR_PEA != 0 || ir & IR_PED != 0 {
            self.actions.push(McanAction::WriteIr(IR_PEA | IR_PED));
            let err = lec_error(lec);
            self.state = McanState::Error(err);
            self.abort_tx(Err(err));
            assert(self.actions@ =~= base.actions@ + stage_pe(base, x, ir, lec).2);
        }
    }
}

/// `m` is `base` part-way through an interrupt, at step `x`.
pub open spec fn at_step(m: Mcan, base: Mcan, x: IrqStep) -> bool {
    &&& m.state == x.0
    &&& m.tx_buffer == x.1
    &&& m.actions@ == base.actions@ + x.2
    &&& m == (Mcan { state: m.state, tx_buffer: m.tx_buffer, actions: m.actions, ..base })
}

/// The driver state, transmit buffer and actions while an interrupt is
/// handled.
pub type IrqStep = (McanState, Option<Frame>, Seq<McanAction>);

/// Transmission complete.
pub open spec fn stage_tc(m: Mcan, x: IrqStep, ir: u32) -> IrqStep {
    if ir & IR_TC == 0 {
        x
    } else {
        let a = x.2.push(McanAction::WriteIr(IR_TC));
        let s = spec_state_after_tx(x.0);
        if m.transmit_client && x.1 is Some {
            (s, None, a.push(McanAction::Callback(ClientCallback::TransmitComplete(Ok(()), x.1.unwrap()))))
        } else {
            (s, x.1, a)
        }
    }
}

/// The transmit buffer handed back with `status`.
pub open spec fn abort_step(m: Mcan, s: McanState, t: Option<Frame>, a: Seq<McanAction>, status: Result<(), CanError>) -> IrqStep {
    if m.transmit_client && t is Some {
        (s, None, a.push(McanAction::Callback(ClientCallback::TransmitComplete(status, t.unwrap()))))
    } else {
        (s, t, a)
    }
}

/// Transmission cancelled.
pub open spec fn stage_tcf(m: Mcan, x: IrqStep, ir: u32) -> IrqStep {
    if ir & IR_TCF == 0 {
        x
    } else {
        abort_step(m, x.0, x.1, x.2.push(McanAction::WriteIr(IR_TCF)), Err(CanError::SetBySoftware))
    }
}

/// New frames and lost frames.
pub open spec fn stage_rx(x: IrqStep, ir: u32) -> IrqStep {
    let a = if ir & IR_RF0N != 0 {
        x.2.push(McanAction::WriteIr(IR_RF0N)).push(McanAction::DrainRxFifo)
    } else {
        x.2
    };
    let a2 = if ir & IR_RF0L != 0 {
        a.push(McanAction::WriteIr(IR_RF0L))
    } else {
        a
    };
    (x.0, x.1, a2)
}

/// A controller state flagged by `bit`.
pub open spec fn stage_err(m: Mcan, x: IrqStep, ir: u32, bit: u32, e: CanError) -> IrqStep {
    if ir & bit == 0 {
        x
    } else {
        (
            McanState::Error(e),
            x.1,
            x.2.push(McanAction::WriteIr(bit)) + opt_callback(
                m.controller_client,
                ClientCallback::StateChanged(CanState::Error(e)),
            ),
        )
    }
}

/// A protocol error in the arbitration or data phase.
pub open spec fn stage_pe(m: Mcan, x: IrqStep, ir: u32, lec: u32) -> IrqStep {
    if ir & IR_PEA == 0 && ir & IR_PED == 0 {
        x
    } else {
        let e = spec_lec_error(lec);
        abort_step(m, McanState::Error(e), x.1, x.2.push(McanAction::WriteIr(IR_PEA | IR_PED)), Err(e))
    }
}

/// The effect of an interrupt: the driver state, the transmit buffer, and
/// the actions, in order.
pub open spec fn spec_interrupt(m: Mcan, ir: u32, lec: u32) -> IrqStep {
    let x0: IrqStep = (m.state, m.tx_buffer, Seq::empty());
    let x1 = stage_tc(m, x0, ir);
    let x2 = stage_tcf(m, x1, ir);
    let x3 = stage_rx(x2, ir);
    let x4 = stage_err(m, x3, ir, IR_BO, CanError::BusOff);
    let x5 = stage_err(m, x4, ir, IR_EP, CanError::Passive);
    let x6 = stage_err(m, x5, ir, IR_EW, CanError::Warning);
    stage_pe(m, x6, ir, lec)
}

/// The callbacks a completion reported through a deferred call produces.
pub open spec fn spec_deferred_callbacks(m: Mcan) -> Seq<McanAction> {
    match m.deferred_action {
        Some(AsyncAction::Enable) => opt_callback(
            m.controller_client,
            ClientCallback::StateChanged(CanState::Running),
        ) + opt_callback(m.controller_client, ClientCallback::Enabled(Ok(()))),
        Some(AsyncAction::EnableError(e)) => opt_callback(
            m.controller_client,
            ClientCallback::StateChanged(spec_can_state(m.state)),
        ) + opt_callback(m.controller_client, ClientCallback::Enabled(Err(e))),
        Some(AsyncAction::Disable) => opt_callback(
            m.controller_client,
            ClientCallback::StateChanged(CanState::Disabled),
        ) + opt_callback(m.controller_client, ClientCallback::Disabled(Ok(()))),
        Some(AsyncAction::AbortReceive) => if m.rx_buffer is Some {
            opt_callback(m.receive_client, ClientCallback::Stopped(m.rx_buffer.unwrap()))
        } else {
            Seq::empty()
        },
        None => Seq::empty(),
    }
}

impl Mcan {
    /// Consume one element of receive FIFO 0, given its index and its four
    /// words: the frame goes to the receive client, and the returned value
    /// acknowledges the element.
    pub fn rx_element(&mut self, get_index: u32, words: &[u32; 4]) -> (ack: u32)
        ensures
            ack == get_index & 0x3F,
            *final(self) == (Mcan { actions: final(self).actions, ..*old(self) }),
            old(self).receive_client ==> final(self).actions@.len() == old(self).actions@.len() + 1
                && final(self).actions@.drop_last() == old(self).actions@ && (
            final(self).actions@.last() matches McanAction::Callback(
                ClientCallback::MessageReceived(id, data, len, status),
            ) && id == spec_rx_id(words@[0]) && len == spec_rx_len(words@[1]) && status is Ok
                && forall|i: int|
                0 <= i < 8 ==> data@[i] == spec_rx_byte(words@[2], words@[3], i, len as nat)),
            !old(self).receive_client ==> final(self).actions@ == old(self).actions@,
    {
        let (id, data, len) = decode_rx_element(words);
        if self.receive_client {
            self.actions.push(
                McanAction::Callback(ClientCallback::MessageReceived(id, data, len, Ok(()))),
            );
            assert(self.actions@.drop_last() =~= old(self).actions@);
        }
        get_index & 0x3F
    }

    /// Process one element of receive FIFO 0, given the FIFO status
    /// register `rxf0s` and the four words of the element its get index
    /// names. An empty FIFO (fill level 0) yields nothing and changes
    /// nothing; otherwise the element goes to the receive client and the
    /// value acknowledging it comes back, so that the board drains the FIFO
    /// until it reports empty.
    pub fn handle_rx_fifo0(&mut self, rxf0s: u32, words: &[u32; 4]) -> (ack: Option<u32>)
        ensures
            spec_fifo_fill(rxf0s) == 0 ==> ack is None && *final(self) == *old(self),
            spec_fifo_fill(rxf0s) != 0 ==> ack == Some(spec_fifo_get_index(rxf0s)),
            *final(self) == (Mcan { actions: final(self).actions, ..*old(self) }),
            spec_fifo_fill(rxf0s) != 0 && old(self).receive_client ==> final(self).actions@.len()
                == old(self).actions@.len() + 1 && final(self).actions@.drop_last() == old(
                self,
            ).actions@ && (final(self).actions@.last() matches McanAction::Callback(
                ClientCallback::MessageReceived(id, data, len, status),
            ) && id == spec_rx_id(words@[0]) && len == spec_rx_len(words@[1]) && status is Ok
                && forall|i: int|
                0 <= i < 8 ==> data@[i] == spec_rx_byte(words@[2], words@[3], i, len as nat)),
            !old(self).receive_client ==> final(self).actions@ == old(self).actions@,
    {
        if rxf0s & 0x7F == 0 {
            return None;
        }
        let get_index = (rxf0s >> 8u32) & 0x3F;
        let ack = self.rx_element(get_index, words);
        assert(get_index & 0x3F == get_index) by (bit_vector)
            requires
                get_index == (rxf0s >> 8u32) & 0x3F,
        ;
        Some(ack)
    }

    /// Report the pending completion, if any, to the client.
    pub fn handle_deferred_call(&mut self)
        ensures
            final(self).deferred_action is None,
            final(self).actions@ == old(self).actions@ + spec_deferred_callbacks(*old(self)),
            final(self).rx_buffer == if old(self).deferred_action == Some(AsyncAction::AbortReceive) {
                None
            } else {
                old(self).rx_buffer
            },
            *final(self) == (Mcan {
                deferred_action: None,
                rx_buffer: final(self).rx_buffer,
                actions: final(self).actions,
                ..*old(self)
            }),
    {
        let c = self.controller_client;
        match self.deferred_action.take() {
            Some(AsyncAction::Enable) => {
                self.push_callback(c, ClientCallback::StateChanged(CanState::Running));
                self.push_callback(c, ClientCallback::Enabled(Ok(())));
            },
            Some(AsyncAction::EnableError(err)) => {
                let st = self.state.to_can_state();
                self.push_callback(c, ClientCallback::StateChanged(st));
                self.push_callback(c, ClientCallback::Enabled(Err(err)));
            },
            Some(AsyncAction::Disable) => {
                self.push_callback(c, ClientCallback::StateChanged(CanState::Disabled));
                self.push_callback(c, ClientCallback::Disabled(Ok(())));
            },
            Some(AsyncAction::AbortReceive) => {
                if let Some(rx) = self.rx_buffer.take() {
                    let rc = self.receive_client;
                    self.push_callback(rc, ClientCallback::Stopped(rx));
                }
            },
            None => {},
        }
        assert(self.actions@ =~= old(self).actions@ + spec_deferred_callbacks(*old(self)));
    }
}

/// Filters installed while the controller is disabled survive bringing it
/// up: the message RAM image written on enabling holds every filter word of
/// the shadow, and zero everywhere else.
pub proof fn filters_survive_enable(c: McanConfig, m: Mcan, i: int)
    requires
        is_config_of(c, m),
        0 <= i < MSG_RAM_WORDS,
    ensures
        c.ram@.len() == MSG_RAM_WORDS,
        i < FILTER_WORDS ==> c.ram@[i] == m.filters@[i],
        i >= FILTER_WORDS ==> c.ram@[i] == 0,
{
}

/// A finished frame clears a per-frame protocol error but never a
/// controller state (bus-off, error-passive, error-warning), which only its
/// own recovery clears; other states are unchanged.
pub proof fn frame_errors_do_not_stay_latched(s: McanState)
    ensures
        s matches McanState::Error(e) ==> (spec_is_controller_state(e) ==> spec_state_after_tx(s) == s),
        s matches McanState::Error(e) ==> (!spec_is_controller_state(e) ==> spec_state_after_tx(s)
            == McanState::Running),
        !(s is Error) ==> spec_state_after_tx(s) == s,
{
}

proof fn lemma_cccr_bits(retx_set: u32, retx_clear: u32, mode_set: u32, mode_clear: u32)
    by (bit_vector)
    requires
        (retx_set == 0 && retx_clear == CCCR_DAR) || (retx_set == CCCR_DAR && retx_clear == 0),
        (mode_set == CCCR_TEST && mode_clear == CCCR_MON) || (mode_set == CCCR_MON && mode_clear
            == CCCR_TEST) || (mode_set == CCCR_CSR && mode_clear == 0) || (mode_set == 0
            && mode_clear == CCCR_MON | CCCR_TEST | CCCR_CSR),
    ensures
        CCCR_DAR != 0,
        CCCR_TEST != CCCR_MON && CCCR_TEST != CCCR_CSR && CCCR_MON != CCCR_CSR && CCCR_TEST != 0
            && CCCR_MON != 0 && CCCR_CSR != 0 && CCCR_MON | CCCR_TEST | CCCR_CSR != CCCR_MON
            && CCCR_MON | CCCR_TEST | CCCR_CSR != CCCR_TEST,
        (retx_set | mode_set) & CCCR_DAR != 0 <==> retx_set == CCCR_DAR,
        (CCCR_FDOE | CCCR_BRSE | retx_clear | mode_clear) & CCCR_DAR != 0 <==> retx_clear
            == CCCR_DAR,
        (retx_set | mode_set) & (CCCR_FDOE | CCCR_BRSE | retx_clear | mode_clear) == 0,
        (CCCR_FDOE | CCCR_BRSE | retx_clear | mode_clear) & CCCR_FDOE != 0,
        (CCCR_FDOE | CCCR_BRSE | retx_clear | mode_clear) & CCCR_BRSE != 0,
        (retx_set | mode_set) & CCCR_TEST != 0 <==> mode_set == CCCR_TEST,
        (retx_set | mode_set) & CCCR_MON != 0 <==> mode_set == CCCR_MON,
        (retx_set | mode_set) & CCCR_CSR != 0 <==> mode_set == CCCR_CSR,
        (CCCR_FDOE | CCCR_BRSE | retx_clear | mode_clear) & CCCR_MON != 0 <==> (mode_clear
            == CCCR_MON || mode_set == 0),
        (CCCR_FDOE | CCCR_BRSE | retx_clear | mode_clear) & CCCR_TEST != 0 <==> (mode_clear
            == CCCR_TEST || mode_set == 0),
        (CCCR_FDOE | CCCR_BRSE | retx_clear | mode_clear) & CCCR_CSR != 0 <==> mode_set == 0,
{
}

/// The bits that bring-up sets and clears for a mode, as its own values.
spec fn mode_bits(mode: OperationMode) -> (u32, u32) {
    if mode == OperationMode::Loopback {
        (CCCR_TEST, CCCR_MON)
    } else if mode == OperationMode::Monitoring {
        (CCCR_MON, CCCR_TEST)
    } else if mode == OperationMode::Freeze {
        (CCCR_CSR, 0)
    } else {
        (0, CCCR_MON | CCCR_TEST | CCCR_CSR)
    }
}

proof fn lemma_cccr(auto_retx: bool, mode: OperationMode)
    ensures
        ({
            let (ms, mc) = mode_bits(mode);
            let rs: u32 = if auto_retx { 0 } else { CCCR_DAR };
            let rc: u32 = if auto_retx { CCCR_DAR } else { 0 };
            &&& spec_cccr_set(auto_retx, mode) == rs | ms
            &&& spec_cccr_clear(auto_retx, mode) == CCCR_FDOE | CCCR_BRSE | rc | mc
        }),
{
    let (ms, mc) = mode_bits(mode);
    let rs: u32 = if auto_retx { 0 } else { CCCR_DAR };
    let rc: u32 = if auto_retx { CCCR_DAR } else { 0 };
    lemma_cccr_bits(rs, rc, ms, mc);
}

/// The retransmission choice reaches the controller through the
/// disable-automatic-retransmission bit: bring-up sets it exactly when
/// automatic retransmission is off and clears it exactly when it is on,
/// whatever the mode.
pub proof fn retransmission_choice_in_cccr(auto_retx: bool, mode: OperationMode)
    ensures
        spec_cccr_set(auto_retx, mode) & CCCR_DAR != 0 <==> !auto_retx,
        spec_cccr_clear(auto_retx, mode) & CCCR_DAR != 0 <==> auto_retx,
{
    let (ms, mc) = mode_bits(mode);
    lemma_cccr(auto_retx, mode);
    lemma_cccr_bits(if auto_retx { 0 } else { CCCR_DAR }, if auto_retx { CCCR_DAR } else { 0 }, ms, mc);
}

/// Bring-up never both sets and clears a control bit; it always turns CAN
/// FD and bit-rate switching off; and the mode picks the test, bus-monitor
/// and clock-stop bits: loop-back sets test and clears monitoring,
/// monitoring sets monitoring and clears test, freeze sets clock stop and
/// leaves the other two, normal clears all three.
pub proof fn mode_choice_in_cccr(auto_retx: bool, mode: OperationMode)
    ensures
        spec_cccr_set(auto_retx, mode) & spec_cccr_clear(auto_retx, mode) == 0,
        spec_cccr_clear(auto_retx, mode) & CCCR_FDOE != 0,
        spec_cccr_clear(auto_retx, mode) & CCCR_BRSE != 0,
        spec_cccr_set(auto_retx, mode) & CCCR_TEST != 0 <==> mode == OperationMode::Loopback,
        spec_cccr_set(auto_retx, mode) & CCCR_MON != 0 <==> mode == OperationMode::Monitoring,
        spec_cccr_set(auto_retx, mode) & CCCR_CSR != 0 <==> mode == OperationMode::Freeze,
        spec_cccr_clear(auto_retx, mode) & CCCR_MON != 0 <==> (mode == OperationMode::Loopback
            || mode == OperationMode::Normal),
        spec_cccr_clear(auto_retx, mode) & CCCR_TEST != 0 <==> (mode == OperationMode::Monitoring
            || mode == OperationMode::Normal),
        spec_cccr_clear(auto_retx, mode) & CCCR_CSR != 0 <==> mode == OperationMode::Normal,
{
    let (ms, mc) = mode_bits(mode);
    lemma_cccr(auto_retx, mode);
    lemma_cccr_bits(if auto_retx { 0 } else { CCCR_DAR }, if auto_retx { CCCR_DAR } else { 0 }, ms, mc);
}

} // verus!
