//! USART1 of the SAM V71, wired to the debugger's USB serial bridge.
//!
//! Transmission is interrupt driven, a byte at a time. Reception is either
//! interrupt driven or, with the DMA controller attached, done by the DMA
//! controller until the receive line stays idle. Every call and interrupt
//! yields the register accesses to perform, in order, and the buffers
//! finished with.
use vstd::prelude::*;
use crate::error::ErrorCode;
use crate::xdmac::{Xdmac, XdmacAccess, XDMAC_BASE, GD, USART1_RX_CHANNEL, USART1_RX_PERID, UBLEN_MASK, spec_configure};

verus! {

/// USART1 base address.
pub const USART1_BASE: u32 = 0x4002_8000;

/// USART1 peripheral identifier, for the clock controller.
pub const USART1_PID: u32 = 14;

/// Master clock after start-up.
pub const MCK_HZ: u32 = 150_000_000;

/// Address of the receive holding register, the DMA source.
pub const USART1_RHR_ADDR: u32 = 0x4002_8018;

/// Factor from the inter-byte timeout to the receiver timeout register
/// when the DMA controller receives: the USB bridge leaves gaps between
/// its packets.
pub const RTOR_MULTIPLIER: u32 = 5;

/// Control register bits.
pub const CR_RSTRX: u32 = 1 << 2;
pub const CR_RSTTX: u32 = 1 << 3;
pub const CR_RXEN: u32 = 1 << 4;
pub const CR_RXDIS: u32 = 1 << 5;
pub const CR_TXEN: u32 = 1 << 6;
pub const CR_TXDIS: u32 = 1 << 7;
pub const CR_RSTSTA: u32 = 1 << 8;
pub const CR_STTTO: u32 = 1 << 11;

/// Interrupt and status bits.
pub const IR_RXRDY: u32 = 1 << 0;
pub const IR_TXRDY: u32 = 1 << 1;
pub const IR_OVRE: u32 = 1 << 5;
pub const IR_FRAME: u32 = 1 << 6;
pub const IR_PARE: u32 = 1 << 7;
pub const IR_TIMEOUT: u32 = 1 << 8;
pub const IR_TXEMPTY: u32 = 1 << 9;

/// Every interrupt of interrupt-driven reception.
pub const IR_RX_ALL: u32 = IR_RXRDY | IR_TIMEOUT | IR_OVRE | IR_FRAME | IR_PARE;

/// Receive errors.
pub const IR_RX_ERRORS: u32 = IR_OVRE | IR_FRAME | IR_PARE;

/// Receiver timeout field mask (17 bits).
pub const RTOR_MASK: u32 = 0x1_FFFF;

/// What went wrong with a reception.
#[derive(Clone, Copy, Debug, PartialEq, Eq, Structural)]
pub enum UartError {
    ParityError,
    FramingError,
    OverrunError,
    RepeatCallError,
    ResetError,
    BreakError,
    Aborted,
    /// No error.
    NoError,
}

#[derive(Clone, Copy, Debug, PartialEq, Eq, Structural)]
pub enum Parity {
    /// No parity bit.
    NoParity,
    Odd,
    Even,
}

#[derive(Clone, Copy, Debug, PartialEq, Eq, Structural)]
pub enum StopBits {
    One,
    Two,
}

#[derive(Clone, Copy, Debug, PartialEq, Eq, Structural)]
pub enum Width {
    Six,
    Seven,
    Eight,
}

/// Line parameters.
#[derive(Clone, Copy, Debug, PartialEq, Eq, Structural)]
pub struct Parameters {
    pub baud_rate: u32,
    pub width: Width,
    pub parity: Parity,
    pub stop_bits: StopBits,
    pub hw_flow_control: bool,
}

#[derive(Clone, Copy, Debug, PartialEq, Eq, Structural)]
pub enum TxState {
    Idle,
    Sending,
    WaitingEmpty,
}

#[derive(Clone, Copy, Debug, PartialEq, Eq, Structural)]
pub enum RxState {
    Idle,
    Receiving,
    ReceivingDma,
}

/// A register access for the board to perform.
#[derive(Clone, Copy, Debug, PartialEq, Eq, Structural)]
pub enum UsartWrite {
    Cr(u32),
    Mr(u32),
    Ier(u32),
    Idr(u32),
    Thr(u32),
    Brgr(u32),
    Rtor(u32),
    Dma(XdmacAccess),
}

/// A finished reception for the client: the buffer, how many bytes
/// arrived, the outcome and the line error.
pub struct RxDone {
    pub buffer: Vec<u8>,
    pub len: usize,
    pub rcode: Result<(), ErrorCode>,
    pub error: UartError,
}

/// A finished transmission for the client: the buffer, how many bytes
/// went out, the outcome.
pub struct TxDone {
    pub buffer: Vec<u8>,
    pub len: usize,
    pub rcode: Result<(), ErrorCode>,
}

/// The driver.
pub struct Usart1 {
    pub tx_client: bool,
    pub rx_client: bool,
    pub tx_buffer: Option<Vec<u8>>,
    pub tx_len: usize,
    pub tx_pos: usize,
    pub tx_state: TxState,
    pub rx_buffer: Option<Vec<u8>>,
    pub rx_len: usize,
    pub rx_pos: usize,
    pub rx_state: RxState,
    pub xdmac: Option<Xdmac>,
    /// Register accesses for the board, oldest first.
    pub writes: Vec<UsartWrite>,
}

/// The mode register value: master clock, 8 data bits, the parity and
/// stop bits asked for, 16 times oversampling.
pub open spec fn spec_mr(parity: Parity, stop: StopBits) -> u32 {
    (3u32 << 6u32) | ((match parity {
        Parity::NoParity => 4u32,
        Parity::Even => 0u32,
        Parity::Odd => 1u32,
    }) << 9u32) | ((match stop {
        StopBits::One => 0u32,
        StopBits::Two => 2u32,
    }) << 12u32)
}

/// The baud rate divisor: `MCK / (16 * baud)`, in the 16-bit field.
pub open spec fn spec_cd(baud: u32) -> u32 {
    ((MCK_HZ / (16 * baud) as u32) as u32) & 0xFFFF
}

/// The writes that configure the line.
pub open spec fn spec_configure_writes(p: Parameters) -> Seq<UsartWrite> {
    seq![
        UsartWrite::Cr(CR_RSTRX | CR_RSTTX | CR_RXDIS | CR_TXDIS),
        UsartWrite::Mr(spec_mr(p.parity, p.stop_bits)),
        UsartWrite::Brgr(spec_cd(p.baud_rate)),
        UsartWrite::Cr(CR_RSTSTA | CR_RXEN | CR_TXEN),
    ]
}

/// The buffer's contents, empty when there is none.
pub open spec fn opt_view(b: Option<Vec<u8>>) -> Seq<u8> {
    match b {
        Some(v) => v@,
        None => Seq::empty(),
    }
}

/// The writes that stop the DMA controller's receive channel, when it is
/// attached.
pub open spec fn dma_stop_writes(x: Option<Xdmac>) -> Seq<UsartWrite> {
    if x is Some {
        seq![UsartWrite::Dma(XdmacAccess::Write((XDMAC_BASE + GD) as usize, 1u32))]
    } else {
        Seq::empty()
    }
}

/// Bytes the DMA controller has received, given its byte counter `cubc`;
/// none without the controller.
pub open spec fn dma_received(x: Option<Xdmac>, cubc: u32) -> int {
    match x {
        Some(d) => d.rx_count() - (cubc & UBLEN_MASK),
        None => 0,
    }
}

/// Whether the DMA controller's counter is consistent with the transfer
/// it was given.
pub open spec fn dma_counter_ok(x: Option<Xdmac>, cubc: u32) -> bool {
    x matches Some(d) ==> cubc & UBLEN_MASK <= d.rx_count()
}

/// The line error a receive error status reports: overrun first, then
/// framing, then parity.
pub open spec fn spec_rx_error(csr: u32) -> UartError {
    if csr & IR_OVRE != 0 {
        UartError::OverrunError
    } else if csr & IR_FRAME != 0 {
        UartError::FramingError
    } else {
        UartError::ParityError
    }
}

/// Which path an interrupt takes, in priority order.
#[derive(Clone, Copy, Debug, PartialEq, Eq, Structural)]
pub enum UsartBranch {
    /// Overrun while the DMA controller receives.
    DmaOverrun,
    /// Line idle while the DMA controller receives: the normal end.
    DmaTimeout,
    /// A receive error during interrupt-driven reception.
    RxError,
    /// Line idle during interrupt-driven reception.
    RxTimeout,
    /// Data and transmit events.
    Data,
}

pub open spec fn spec_branch(rx_state: RxState, csr: u32, imr: u32) -> UsartBranch {
    if csr & IR_OVRE != 0 && rx_state == RxState::ReceivingDma {
        UsartBranch::DmaOverrun
    } else if csr & IR_TIMEOUT != 0 && imr & IR_TIMEOUT != 0 && rx_state == RxState::ReceivingDma {
        UsartBranch::DmaTimeout
    } else if csr & IR_RX_ERRORS != 0 && imr & IR_RXRDY != 0 {
        UsartBranch::RxError
    } else if csr & IR_TIMEOUT != 0 && imr & IR_TIMEOUT != 0 {
        UsartBranch::RxTimeout
    } else {
        UsartBranch::Data
    }
}

/// The transmit side is unchanged.
pub open spec fn same_tx(n: Usart1, o: Usart1) -> bool {
    &&& n.tx_client == o.tx_client
    &&& n.tx_buffer == o.tx_buffer
    &&& n.tx_len == o.tx_len
    &&& n.tx_pos == o.tx_pos
    &&& n.tx_state == o.tx_state
}

/// The receive side, the DMA controller and the clients are unchanged.
pub open spec fn same_rx(n: Usart1, o: Usart1) -> bool {
    &&& n.rx_client == o.rx_client
    &&& n.rx_buffer == o.rx_buffer
    &&& n.rx_len == o.rx_len
    &&& n.rx_pos == o.rx_pos
    &&& n.rx_state == o.rx_state
    &&& n.xdmac == o.xdmac
}

/// A reception ends: when a buffer is held it is taken, the receiver goes
/// idle and the client, if any, gets it with `len`, `rcode` and `error`.
/// Without a buffer nothing else changes.
pub open spec fn rx_finished(
    n: Usart1,
    o: Usart1,
    r: Option<RxDone>,
    len: int,
    rcode: Result<(), ErrorCode>,
    error: UartError,
) -> bool {
    &&& n.rx_buffer is None
    &&& n.rx_len == o.rx_len
    &&& n.rx_pos == o.rx_pos
    &&& n.rx_client == o.rx_client
    &&& n.xdmac == o.xdmac
    &&& o.rx_buffer is Some ==> n.rx_state == RxState::Idle
    &&& o.rx_buffer is None ==> n.rx_state == o.rx_state
    &&& o.rx_buffer is Some && o.rx_client ==> (r matches Some(d) && d.buffer@ == o.rx_buffer.unwrap()@
        && d.len == len && d.rcode == rcode && d.error == error)
    &&& !(o.rx_buffer is Some && o.rx_client) ==> r is None
}

/// A transmission ends likewise.
pub open spec fn tx_finished(n: Usart1, o: Usart1, r: Option<TxDone>, len: int, rcode: Result<(), ErrorCode>) -> bool {
    &&& n.tx_buffer is None
    &&& n.tx_len == o.tx_len
    &&& n.tx_pos == o.tx_pos
    &&& n.tx_client == o.tx_client
    &&& o.tx_buffer is Some ==> n.tx_state == TxState::Idle
    &&& o.tx_buffer is None ==> n.tx_state == o.tx_state
    &&& o.tx_buffer is Some && o.tx_client ==> (r matches Some(d) && d.buffer@ == o.tx_buffer.unwrap()@
        && d.len == len && d.rcode == rcode)
    &&& !(o.tx_buffer is Some && o.tx_client) ==> r is None
}

/// The receive side after a byte `byte` arrives during interrupt-driven
/// reception: stored when it fits, then, once `rx_len` bytes are in,
/// the reception ends.
pub open spec fn rx_byte_post(n: Usart1, o: Usart1, r: Option<RxDone>, byte: u8) -> bool {
    let fits = o.rx_buffer is Some && o.rx_pos < opt_view(o.rx_buffer).len();
    let pos = if fits {
        o.rx_pos + 1
    } else {
        o.rx_pos as int
    };
    let contents = if fits {
        opt_view(o.rx_buffer).update(o.rx_pos as int, byte)
    } else {
        opt_view(o.rx_buffer)
    };
    &&& n.rx_pos == pos
    &&& n.rx_len == o.rx_len
    &&& n.rx_client == o.rx_client
    &&& n.xdmac == o.xdmac
    &&& pos >= o.rx_len ==> {
        &&& n.rx_buffer is None
        &&& o.rx_buffer is Some ==> n.rx_state == RxState::Idle
        &&& o.rx_buffer is None ==> n.rx_state == o.rx_state
        &&& o.rx_buffer is Some && o.rx_client ==> (r matches Some(d) && d.buffer@ == contents
            && d.len == pos && d.rcode == Ok::<(), ErrorCode>(()) && d.error == UartError::NoError)
        &&& !(o.rx_buffer is Some && o.rx_client) ==> r is None
    }
    &&& pos < o.rx_len ==> {
        &&& n.rx_state == o.rx_state
        &&& (n.rx_buffer is Some <==> o.rx_buffer is Some)
        &&& opt_view(n.rx_buffer) == contents
        &&& r is None
    }
}

/// The writes after a byte arrives: none until the reception ends, then
/// mask receive interrupts and stop the timeout.
pub open spec fn rx_byte_writes(o: Usart1) -> Seq<UsartWrite> {
    let fits = o.rx_buffer is Some && o.rx_pos < opt_view(o.rx_buffer).len();
    let pos = if fits {
        o.rx_pos + 1
    } else {
        o.rx_pos as int
    };
    if pos >= o.rx_len {
        seq![UsartWrite::Idr(IR_RXRDY | IR_TIMEOUT), UsartWrite::Rtor(0)]
    } else {
        Seq::empty()
    }
}

/// The transmit side when the transmitter can take a byte: the next one
/// goes out and, after the last, the driver waits for the line to empty.
pub open spec fn tx_next_post(n: Usart1, o: Usart1) -> bool {
    &&& n.tx_client == o.tx_client
    &&& n.tx_buffer == o.tx_buffer
    &&& n.tx_len == o.tx_len
    &&& o.tx_pos < o.tx_len ==> n.tx_pos == o.tx_pos + 1
    &&& o.tx_pos >= o.tx_len ==> n.tx_pos == o.tx_pos
    &&& n.tx_state == if o.tx_pos < o.tx_len && o.tx_pos + 1 >= o.tx_len {
        TxState::WaitingEmpty
    } else {
        o.tx_state
    }
}

pub open spec fn tx_next_writes(o: Usart1) -> Seq<UsartWrite> {
    if o.tx_pos < o.tx_len {
        (if o.tx_buffer is Some {
            seq![UsartWrite::Thr(opt_view(o.tx_buffer)[o.tx_pos as int] as u32)]
        } else {
            Seq::empty()
        }) + if o.tx_pos + 1 >= o.tx_len {
            seq![UsartWrite::Idr(IR_TXRDY), UsartWrite::Ier(IR_TXEMPTY)]
        } else {
            Seq::empty()
        }
    } else {
        Seq::empty()
    }
}

/// What `handle_interrupt` does to the driver `o`, giving `n` and `r`,
/// for the channel status `csr`, the interrupt mask `imr`, the receive
/// holding register `rhr` and the DMA byte counter `cubc`.
pub open spec fn interrupt_post(
    n: Usart1,
    o: Usart1,
    csr: u32,
    imr: u32,
    rhr: u32,
    cubc: u32,
    r: (Option<RxDone>, Option<TxDone>),
) -> bool {
    match spec_branch(o.rx_state, csr, imr) {
        UsartBranch::DmaOverrun => {
            &&& same_tx(n, o)
            &&& r.1 is None
            &&& rx_finished(n, o, r.0, dma_received(o.xdmac, cubc), Err(ErrorCode::FAIL), UartError::OverrunError)
            &&& n.writes@ =~= o.writes@ + seq![
                UsartWrite::Idr(IR_TIMEOUT | IR_OVRE),
                UsartWrite::Cr(CR_RSTSTA),
                UsartWrite::Rtor(0),
            ] + dma_stop_writes(o.xdmac)
        },
        UsartBranch::DmaTimeout => {
            &&& same_tx(n, o)
            &&& r.1 is None
            &&& rx_finished(n, o, r.0, dma_received(o.xdmac, cubc), Ok(()), UartError::NoError)
            &&& n.writes@ =~= o.writes@ + seq![
                UsartWrite::Idr(IR_TIMEOUT | IR_OVRE),
                UsartWrite::Rtor(0),
            ] + dma_stop_writes(o.xdmac)
        },
        UsartBranch::RxError => {
            &&& same_tx(n, o)
            &&& r.1 is None
            &&& rx_finished(n, o, r.0, o.rx_pos as int, Err(ErrorCode::FAIL), spec_rx_error(csr))
            &&& n.writes@ =~= o.writes@ + seq![
                UsartWrite::Idr(IR_RX_ALL),
                UsartWrite::Cr(CR_RSTSTA),
            ]
        },
        UsartBranch::RxTimeout => {
            &&& same_tx(n, o)
            &&& r.1 is None
            &&& rx_finished(n, o, r.0, o.rx_pos as int, Ok(()), UartError::NoError)
            &&& n.writes@ =~= o.writes@ + seq![
                UsartWrite::Idr(IR_RXRDY | IR_TIMEOUT),
                UsartWrite::Rtor(0),
            ]
        },
        UsartBranch::Data => {
            let rx = csr & IR_RXRDY != 0 && imr & IR_RXRDY != 0;
            let tx = csr & IR_TXRDY != 0 && imr & IR_TXRDY != 0;
            let empty = csr & IR_TXEMPTY != 0 && imr & IR_TXEMPTY != 0;
            &&& rx ==> rx_byte_post(n, o, r.0, (rhr & 0xFF) as u8)
            &&& !rx ==> same_rx(n, o) && r.0 is None
            &&& n.tx_client == o.tx_client
            &&& n.tx_len == o.tx_len
            &&& tx ==> n.tx_pos == if o.tx_pos < o.tx_len {
                o.tx_pos + 1
            } else {
                o.tx_pos as int
            }
            &&& !tx ==> n.tx_pos == o.tx_pos
            &&& empty ==> n.tx_buffer is None
            &&& !empty ==> n.tx_buffer == o.tx_buffer
            &&& n.tx_state == if empty && o.tx_buffer is Some {
                TxState::Idle
            } else if tx && o.tx_pos < o.tx_len && o.tx_pos + 1 >= o.tx_len {
                TxState::WaitingEmpty
            } else {
                o.tx_state
            }
            &&& empty && o.tx_buffer is Some && o.tx_client ==> (r.1 matches Some(d)
                && d.buffer@ == o.tx_buffer.unwrap()@ && d.len == o.tx_len && d.rcode
                == Ok::<(), ErrorCode>(()))
            &&& !(empty && o.tx_buffer is Some && o.tx_client) ==> r.1 is None
            &&& n.writes@ =~= o.writes@ + (if rx {
                rx_byte_writes(o)
            } else {
                Seq::empty()
            }) + (if tx {
                tx_next_writes(o)
            } else {
                Seq::empty()
            }) + (if empty {
                seq![UsartWrite::Idr(IR_TXEMPTY)]
            } else {
                Seq::empty()
            })
        },
    }
}

impl Usart1 {
    /// Positions stay within lengths, held buffers cover them, and a
    /// reception in progress holds its buffer.
    pub open spec fn wf(&self) -> bool {
        &&& self.tx_pos <= self.tx_len
        &&& self.tx_buffer matches Some(b) ==> self.tx_len <= b@.len()
        &&& self.rx_buffer matches Some(b) ==> self.rx_pos <= b@.len()
        &&& self.rx_state != RxState::Idle ==> self.rx_buffer is Some
    }

    /// An idle driver with no clients and no DMA controller.
    pub fn new() -> (r: Usart1)
        ensures
            r.wf(),
            !r.tx_client,
            !r.rx_client,
            r.tx_buffer is None,
            r.rx_buffer is None,
            r.tx_len == 0 && r.tx_pos == 0 && r.rx_len == 0 && r.rx_pos == 0,
            r.tx_state == TxState::Idle,
            r.rx_state == RxState::Idle,
            r.xdmac is None,
            r.writes@.len() == 0,
    {
        Usart1 {
            tx_client: false,
            rx_client: false,
            tx_buffer: None,
            tx_len: 0,
            tx_pos: 0,
            tx_state: TxState::Idle,
            rx_buffer: None,
            rx_len: 0,
            rx_pos: 0,
            rx_state: RxState::Idle,
            xdmac: None,
            writes: Vec::new(),
        }
    }

    /// Attach the DMA controller; later automatic receptions use it.
    pub fn set_xdmac(&mut self, xdmac: Xdmac)
        requires
            old(self).wf(),
        ensures
            final(self).wf(),
            final(self).xdmac == Some(xdmac),
            same_tx(*final(self), *old(self)),
            final(self).rx_buffer == old(self).rx_buffer,
            final(self).rx_state == old(self).rx_state,
            final(self).rx_pos == old(self).rx_pos,
            final(self).rx_len == old(self).rx_len,
            final(self).rx_client == old(self).rx_client,
            final(self).writes@ == old(self).writes@,
    {
        self.xdmac = Some(xdmac);
    }

    pub fn set_transmit_client(&mut self, present: bool)
        requires
            old(self).wf(),
        ensures
            final(self).wf(),
            final(self).tx_client == present,
            final(self).tx_buffer == old(self).tx_buffer,
            final(self).tx_state == old(self).tx_state,
            final(self).tx_pos == old(self).tx_pos,
            final(self).tx_len == old(self).tx_len,
            same_rx(*final(self), *old(self)),
            final(self).writes@ == old(self).writes@,
    {
        self.tx_client = present;
    }

    pub fn set_receive_client(&mut self, present: bool)
        requires
            old(self).wf(),
        ensures
            final(self).wf(),
            final(self).rx_client == present,
            same_tx(*final(self), *old(self)),
            final(self).rx_buffer == old(self).rx_buffer,
            final(self).rx_state == old(self).rx_state,
            final(self).rx_pos == old(self).rx_pos,
            final(self).rx_len == old(self).rx_len,
            final(self).xdmac == old(self).xdmac,
            final(self).writes@ == old(self).writes@,
    {
        self.rx_client = present;
    }

    /// Configure the line: reset and disable both directions, set the frame
    /// format and the baud rate divisor `MCK / (16 * baud)`, then clear the
    /// status and enable both directions. Always succeeds.
    pub fn configure(&mut self, params: Parameters) -> (r: Result<(), ErrorCode>)
        requires
            old(self).wf(),
            0 < params.baud_rate <= u32::MAX / 16,
        ensures
            final(self).wf(),
            r is Ok,
            final(self).writes@ == old(self).writes@ + spec_configure_writes(params),
            same_tx(*final(self), *old(self)),
            same_rx(*final(self), *old(self)),
    {
        self.writes.push(UsartWrite::Cr(CR_RSTRX | CR_RSTTX | CR_RXDIS | CR_TXDIS));
        let par: u32 = match params.parity {
            Parity::NoParity => 4,
            Parity::Even => 0,
            Parity::Odd => 1,
        };
        let stop: u32 = match params.stop_bits {
            StopBits::One => 0,
            StopBits::Two => 2,
        };
        self.writes.push(UsartWrite::Mr((3u32 << 6u32) | (par << 9u32) | (stop << 12u32)));
        let cd = MCK_HZ / (16 * params.baud_rate);
        self.writes.push(UsartWrite::Brgr(cd & 0xFFFF));
        self.writes.push(UsartWrite::Cr(CR_RSTSTA | CR_RXEN | CR_TXEN));
        Ok(())
    }

    /// Send the first `tx_len` bytes of `tx_buffer`. `BUSY` while a
    /// transmission runs; `SIZE` for an empty one or one longer than the
    /// buffer. The bytes go out from the transmit-ready interrupt.
    pub fn transmit_buffer(&mut self, tx_buffer: Vec<u8>, tx_len: usize) -> (r: Result<
        (),
        (ErrorCode, Vec<u8>),
    >)
        requires
            old(self).wf(),
        ensures
            final(self).wf(),
            same_rx(*final(self), *old(self)),
            final(self).tx_client == old(self).tx_client,
            old(self).tx_state != TxState::Idle ==> (r matches Err((e, b)) && e == ErrorCode::BUSY
                && b@ == tx_buffer@) && same_tx(*final(self), *old(self)) && final(self).writes@
                == old(self).writes@,
            old(self).tx_state == TxState::Idle && (tx_len == 0 || tx_len > tx_buffer@.len()) ==> (r matches Err((e, b))
                && e == ErrorCode::SIZE && b@ == tx_buffer@) && same_tx(*final(self), *old(self))
                && final(self).writes@ == old(self).writes@,
            old(self).tx_state == TxState::Idle && !(tx_len == 0 || tx_len > tx_buffer@.len()) ==> {
                &&& r is Ok
                &&& final(self).tx_state == TxState::Sending
                &&& final(self).tx_len == tx_len
                &&& final(self).tx_pos == 0
                &&& final(self).tx_buffer matches Some(b) && b@ == tx_buffer@
                &&& final(self).writes@ == old(self).writes@.push(UsartWrite::Ier(IR_TXRDY))
            },
    {
        if self.tx_state != TxState::Idle {
            return Err((ErrorCode::BUSY, tx_buffer));
        }
        if tx_len == 0 || tx_len > tx_buffer.len() {
            return Err((ErrorCode::SIZE, tx_buffer));
        }
        self.tx_len = tx_len;
        self.tx_pos = 0;
        self.tx_state = TxState::Sending;
        self.tx_buffer = Some(tx_buffer);
        self.writes.push(UsartWrite::Ier(IR_TXRDY));
        Ok(())
    }

    /// Single words are not supported.
    pub fn transmit_word(&self, _word: u32) -> (r: Result<(), ErrorCode>)
        ensures
            r == Err::<(), ErrorCode>(ErrorCode::FAIL),
    {
        Err(ErrorCode::FAIL)
    }

    /// Abort a transmission. Nothing to abort: `Ok`. Otherwise mask the
    /// transmit interrupts, go idle, hand the buffer back with the bytes
    /// sent so far and `CANCEL`, and answer `BUSY` (the callback follows).
    pub fn transmit_abort(&mut self) -> (r: (Result<(), ErrorCode>, Option<TxDone>))
        requires
            old(self).wf(),
        ensures
            final(self).wf(),
            same_rx(*final(self), *old(self)),
            old(self).tx_state == TxState::Idle ==> r.0 is Ok && r.1 is None && same_tx(
                *final(self),
                *old(self),
            ) && final(self).writes@ == old(self).writes@,
            old(self).tx_state != TxState::Idle ==> {
                &&& r.0 == Err::<(), ErrorCode>(ErrorCode::BUSY)
                &&& final(self).tx_state == TxState::Idle
                &&& final(self).tx_buffer is None
                &&& final(self).tx_len == old(self).tx_len
                &&& final(self).tx_pos == old(self).tx_pos
                &&& final(self).tx_client == old(self).tx_client
                &&& final(self).writes@ == old(self).writes@.push(UsartWrite::Idr(IR_TXRDY | IR_TXEMPTY))
                &&& old(self).tx_buffer is Some && old(self).tx_client ==> (r.1 matches Some(d)
                    && d.buffer@ == old(self).tx_buffer.unwrap()@ && d.len == old(self).tx_pos
                    && d.rcode == Err::<(), ErrorCode>(ErrorCode::CANCEL))
                &&& !(old(self).tx_buffer is Some && old(self).tx_client) ==> r.1 is None
            },
    {
        if self.tx_state == TxState::Idle {
            return (Ok(()), None);
        }
        self.writes.push(UsartWrite::Idr(IR_TXRDY | IR_TXEMPTY));
        self.tx_state = TxState::Idle;
        let done = match self.tx_buffer.take() {
            Some(buf) => if self.tx_client {
                Some(TxDone { buffer: buf, len: self.tx_pos, rcode: Err(ErrorCode::CANCEL) })
            } else {
                None
            },
            None => None,
        };
        (Err(ErrorCode::BUSY), done)
    }

    /// Receive `rx_len` bytes into `rx_buffer`, a byte per interrupt.
    /// `BUSY` while a reception runs; `SIZE` for an empty one or one longer
    /// than the buffer.
    pub fn receive_buffer(&mut self, rx_buffer: Vec<u8>, rx_len: usize) -> (r: Result<
        (),
        (ErrorCode, Vec<u8>),
    >)
        requires
            old(self).wf(),
        ensures
            final(self).wf(),
            same_tx(*final(self), *old(self)),
            final(self).rx_client == old(self).rx_client,
            final(self).xdmac == old(self).xdmac,
            old(self).rx_state != RxState::Idle ==> (r matches Err((e, b)) && e == ErrorCode::BUSY
                && b@ == rx_buffer@) && same_rx(*final(self), *old(self)) && final(self).writes@
                == old(self).writes@,
            old(self).rx_state == RxState::Idle && (rx_len == 0 || rx_len > rx_buffer@.len()) ==> (r matches Err((e, b))
                && e == ErrorCode::SIZE && b@ == rx_buffer@) && same_rx(*final(self), *old(self))
                && final(self).writes@ == old(self).writes@,
            old(self).rx_state == RxState::Idle && !(rx_len == 0 || rx_len > rx_buffer@.len()) ==> {
                &&& r is Ok
                &&& final(self).rx_state == RxState::Receiving
                &&& final(self).rx_len == rx_len
                &&& final(self).rx_pos == 0
                &&& final(self).rx_buffer matches Some(b) && b@ == rx_buffer@
                &&& final(self).writes@ == old(self).writes@.push(
                    UsartWrite::Ier(IR_RXRDY | IR_OVRE | IR_FRAME | IR_PARE),
                )
            },
    {
        if self.rx_state != RxState::Idle {
            return Err((ErrorCode::BUSY, rx_buffer));
        }
        if rx_len == 0 || rx_len > rx_buffer.len() {
            return Err((ErrorCode::SIZE, rx_buffer));
        }
        self.rx_len = rx_len;
        self.rx_pos = 0;
        self.rx_state = RxState::Receiving;
        self.rx_buffer = Some(rx_buffer);
        self.writes.push(UsartWrite::Ier(IR_RXRDY | IR_OVRE | IR_FRAME | IR_PARE));
        Ok(())
    }

    /// Single words are not supported.
    pub fn receive_word(&self) -> (r: Result<(), ErrorCode>)
        ensures
            r == Err::<(), ErrorCode>(ErrorCode::FAIL),
    {
        Err(ErrorCode::FAIL)
    }

    /// Receive up to `rx_len` bytes into `rx_buffer` (at address
    /// `dst_addr`), ending early when the line stays idle for
    /// `interbyte_timeout` bit times. With the DMA controller attached it
    /// copies the bytes and the timeout is scaled by `RTOR_MULTIPLIER`;
    /// otherwise bytes come a byte per interrupt. `BUSY` while a reception
    /// runs; `SIZE` for an empty one or one longer than the buffer.
    pub fn receive_automatic(
        &mut self,
        rx_buffer: Vec<u8>,
        rx_len: usize,
        interbyte_timeout: u8,
        dst_addr: u32,
    ) -> (r: Result<(), (ErrorCode, Vec<u8>)>)
        requires
            old(self).wf(),
        ensures
            final(self).wf(),
            same_tx(*final(self), *old(self)),
            final(self).rx_client == old(self).rx_client,
            old(self).rx_state != RxState::Idle ==> (r matches Err((e, b)) && e == ErrorCode::BUSY
                && b@ == rx_buffer@) && same_rx(*final(self), *old(self)) && final(self).writes@
                == old(self).writes@,
            old(self).rx_state == RxState::Idle && (rx_len == 0 || rx_len > rx_buffer@.len()) ==> (r matches Err((e, b))
                && e == ErrorCode::SIZE && b@ == rx_buffer@) && same_rx(*final(self), *old(self))
                && final(self).writes@ == old(self).writes@,
            old(self).rx_state == RxState::Idle && !(rx_len == 0 || rx_len > rx_buffer@.len()) ==> {
                &&& r is Ok
                &&& final(self).rx_len == rx_len
                &&& final(self).rx_pos == 0
                &&& final(self).rx_buffer matches Some(b) && b@ == rx_buffer@
                &&& old(self).xdmac is Some ==> {
                    &&& final(self).rx_state == RxState::ReceivingDma
                    &&& final(self).xdmac matches Some(x) && x.rx_count() == rx_len as u32
                    &&& final(self).writes@ == old(self).writes@ + spec_configure(
                        USART1_RX_CHANNEL,
                        USART1_RX_PERID,
                        USART1_RHR_ADDR,
                        dst_addr,
                        rx_len as u32,
                    ).map_values(|a: XdmacAccess| UsartWrite::Dma(a)) + seq![
                        UsartWrite::Dma(XdmacAccess::Write((XDMAC_BASE + 0x1C) as usize, 1u32)),
                        UsartWrite::Rtor((interbyte_timeout as u32 * RTOR_MULTIPLIER) as u32 & RTOR_MASK),
                        UsartWrite::Cr(CR_STTTO),
                        UsartWrite::Ier(IR_TIMEOUT | IR_OVRE),
                    ]
                }
                &&& old(self).xdmac is None ==> {
                    &&& final(self).rx_state == RxState::Receiving
                    &&& final(self).xdmac is None
                    &&& final(self).writes@ == old(self).writes@ + seq![
                        UsartWrite::Rtor(interbyte_timeout as u32),
                        UsartWrite::Cr(CR_STTTO),
                        UsartWrite::Ier(IR_RX_ALL),
                    ]
                }
            },
    {
        if self.rx_state != RxState::Idle {
            return Err((ErrorCode::BUSY, rx_buffer));
        }
        if rx_len == 0 || rx_len > rx_buffer.len() {
            return Err((ErrorCode::SIZE, rx_buffer));
        }
        self.rx_len = rx_len;
        self.rx_pos = 0;
        match self.xdmac.take() {
            Some(mut x) => {
                self.rx_state = RxState::ReceivingDma;
                self.rx_buffer = Some(rx_buffer);
                #[verifier::truncate]
                let count: u32 = rx_len as u32;
                let setup = x.configure_periph_to_mem(
                    USART1_RX_CHANNEL,
                    USART1_RX_PERID,
                    USART1_RHR_ADDR,
                    dst_addr,
                    count,
                );
                let ghost before = self.writes@;
                let ghost s0 = *self;
                let mut i: usize = 0;
                while i < setup.len()
                    invariant
                        i <= setup@.len(),
                        same_tx(*self, s0),
                        self.rx_buffer == s0.rx_buffer,
                        self.rx_len == s0.rx_len,
                        self.rx_pos == s0.rx_pos,
                        self.rx_state == s0.rx_state,
                        self.rx_client == s0.rx_client,
                        self.xdmac is None,
                        self.writes@ == before + setup@.subrange(0, i as int).map_values(
                            |a: XdmacAccess| UsartWrite::Dma(a),
                        ),
                    decreases setup@.len() - i,
                {
                    self.writes.push(UsartWrite::Dma(setup[i]));
                    i = i + 1;
                    assert(setup@.subrange(0, i as int) =~= setup@.subrange(0, i - 1).push(
                        setup@[i - 1],
                    ));
                }
                assert(setup@.subrange(0, setup@.len() as int) =~= setup@);
                let enable = x.enable_channel(USART1_RX_CHANNEL);
                self.writes.push(UsartWrite::Dma(enable));
                self.xdmac = Some(x);
                let to: u32 = interbyte_timeout as u32 * RTOR_MULTIPLIER;
                self.writes.push(UsartWrite::Rtor(to & RTOR_MASK));
                self.writes.push(UsartWrite::Cr(CR_STTTO));
                self.writes.push(UsartWrite::Ier(IR_TIMEOUT | IR_OVRE));
                proof {
                    assert(1u32 << 0u32 == 1u32) by (bit_vector);
                }
            },
            None => {
                self.rx_state = RxState::Receiving;
                self.rx_buffer = Some(rx_buffer);
                self.writes.push(UsartWrite::Rtor(interbyte_timeout as u32 & RTOR_MASK));
                self.writes.push(UsartWrite::Cr(CR_STTTO));
                self.writes.push(UsartWrite::Ier(IR_RX_ALL));
                proof {
                    let t = interbyte_timeout as u32;
                    assert(t <= 255 ==> t & 0x1_FFFFu32 == t) by (bit_vector);
                }
            },
        }
        Ok(())
    }

    /// Abort a reception. Nothing to abort: `Ok`. Otherwise stop it (the
    /// DMA controller first, when it receives), go idle, hand the buffer
    /// back with the bytes received so far and `CANCEL`, and answer `BUSY`.
    /// `cubc` is the DMA controller's byte counter.
    pub fn receive_abort(&mut self, cubc: u32) -> (r: (Result<(), ErrorCode>, Option<RxDone>))
        requires
            old(self).wf(),
            old(self).rx_state == RxState::ReceivingDma ==> dma_counter_ok(old(self).xdmac, cubc),
        ensures
            final(self).wf(),
            same_tx(*final(self), *old(self)),
            old(self).rx_state == RxState::Idle ==> r.0 is Ok && r.1 is None && same_rx(
                *final(self),
                *old(self),
            ) && final(self).writes@ == old(self).writes@,
            old(self).rx_state != RxState::Idle ==> {
                &&& r.0 == Err::<(), ErrorCode>(ErrorCode::BUSY)
                &&& final(self).rx_state == RxState::Idle
                &&& rx_finished(
                    *final(self),
                    *old(self),
                    r.1,
                    if old(self).rx_state == RxState::ReceivingDma {
                        dma_received(old(self).xdmac, cubc)
                    } else {
                        old(self).rx_pos as int
                    },
                    Err(ErrorCode::CANCEL),
                    UartError::Aborted,
                )
                &&& final(self).writes@ == old(self).writes@ + if old(self).rx_state
                    == RxState::ReceivingDma {
                    dma_stop_writes(old(self).xdmac) + seq![
                        UsartWrite::Idr(IR_TIMEOUT | IR_OVRE),
                        UsartWrite::Rtor(0),
                    ]
                } else {
                    seq![UsartWrite::Idr(IR_RX_ALL), UsartWrite::Rtor(0)]
                }
            },
    {
        if self.rx_state == RxState::Idle {
            return (Ok(()), None);
        }
        let len = if self.rx_state == RxState::ReceivingDma {
            match &self.xdmac {
                Some(x) => {
                    let d = x.disable_channel(USART1_RX_CHANNEL);
                    self.writes.push(UsartWrite::Dma(d));
                },
                None => {},
            }
            self.writes.push(UsartWrite::Idr(IR_TIMEOUT | IR_OVRE));
            let received = match &self.xdmac {
                Some(x) => x.usart1_rx_transferred(cubc) as usize,
                None => 0,
            };
            self.writes.push(UsartWrite::Rtor(0));
            proof {
                assert(1u32 << 0u32 == 1u32) by (bit_vector);
            }
            received
        } else {
            self.writes.push(UsartWrite::Idr(IR_RX_ALL));
            self.writes.push(UsartWrite::Rtor(0));
            self.rx_pos
        };
        self.rx_state = RxState::Idle;
        let done = match self.rx_buffer.take() {
            Some(buf) => if self.rx_client {
                Some(RxDone { buffer: buf, len, rcode: Err(ErrorCode::CANCEL), error: UartError::Aborted })
            } else {
                None
            },
            None => None,
        };
        (Err(ErrorCode::BUSY), done)
    }

    /// End the reception: take the buffer, go idle, and hand it to the
    /// client.
    fn finish_rx(&mut self, len: usize, rcode: Result<(), ErrorCode>, error: UartError) -> (r: Option<RxDone>)
        requires
            old(self).wf(),
        ensures
            final(self).wf(),
            rx_finished(*final(self), *old(self), r, len as int, rcode, error),
            same_tx(*final(self), *old(self)),
            final(self).writes@ == old(self).writes@,
    {
        match self.rx_buffer.take() {
            Some(buf) => {
                self.rx_state = RxState::Idle;
                if self.rx_client {
                    Some(RxDone { buffer: buf, len, rcode, error })
                } else {
                    None
                }
            },
            None => None,
        }
    }

    /// End of a DMA reception, by overrun or by the line going idle.
    fn dma_finish(&mut self, cubc: u32, overrun: bool) -> (r: Option<RxDone>)
        requires
            old(self).wf(),
            dma_counter_ok(old(self).xdmac, cubc),
        ensures
            final(self).wf(),
            same_tx(*final(self), *old(self)),
            rx_finished(
                *final(self),
                *old(self),
                r,
                dma_received(old(self).xdmac, cubc),
                if overrun {
                    Err(ErrorCode::FAIL)
                } else {
                    Ok(())
                },
                if overrun {
                    UartError::OverrunError
                } else {
                    UartError::NoError
                },
            ),
            final(self).writes@ == old(self).writes@ + if overrun {
                seq![UsartWrite::Idr(IR_TIMEOUT | IR_OVRE), UsartWrite::Cr(CR_RSTSTA), UsartWrite::Rtor(0)]
            } else {
                seq![UsartWrite::Idr(IR_TIMEOUT | IR_OVRE), UsartWrite::Rtor(0)]
            } + dma_stop_writes(old(self).xdmac),
    {
        self.writes.push(UsartWrite::Idr(IR_TIMEOUT | IR_OVRE));
        if overrun {
            self.writes.push(UsartWrite::Cr(CR_RSTSTA));
        }
        self.writes.push(UsartWrite::Rtor(0));
        let received = match &self.xdmac {
            Some(x) => {
                let d = x.disable_channel(USART1_RX_CHANNEL);
                self.writes.push(UsartWrite::Dma(d));
                x.usart1_rx_transferred(cubc) as usize
            },
            None => 0,
        };
        proof {
            assert(1u32 << 0u32 == 1u32) by (bit_vector);
        }
        if overrun {
            self.finish_rx(received, Err(ErrorCode::FAIL), UartError::OverrunError)
        } else {
            self.finish_rx(received, Ok(()), UartError::NoError)
        }
    }

    /// A byte `byte` arrived during interrupt-driven reception.
    fn rx_byte(&mut self, byte: u8) -> (r: Option<RxDone>)
        requires
            old(self).wf(),
        ensures
            final(self).wf(),
            same_tx(*final(self), *old(self)),
            rx_byte_post(*final(self), *old(self), r, byte),
            final(self).writes@ == old(self).writes@ + rx_byte_writes(*old(self)),
    {
        let mut stored = false;
        match self.rx_buffer.take() {
            Some(mut buf) => {
                let pos = self.rx_pos;
                let _n = buf.len();
                if pos < buf.len() {
                    buf.set(pos, byte);
                    self.rx_pos = pos + 1;
                    stored = true;
                }
                self.rx_buffer = Some(buf);
            },
            None => {},
        }
        let pos = self.rx_pos;
        if pos >= self.rx_len {
            self.writes.push(UsartWrite::Idr(IR_RXRDY | IR_TIMEOUT));
            self.writes.push(UsartWrite::Rtor(0));
            let r = self.finish_rx(pos, Ok(()), UartError::NoError);
            r
        } else {
            assert(self.writes@ =~= old(self).writes@ + rx_byte_writes(*old(self)));
            None
        }
    }

    /// The transmitter can take a byte.
    fn tx_next(&mut self)
        requires
            old(self).wf(),
        ensures
            final(self).wf(),
            same_rx(*final(self), *old(self)),
            tx_next_post(*final(self), *old(self)),
            final(self).writes@ == old(self).writes@ + tx_next_writes(*old(self)),
    {
        let pos = self.tx_pos;
        let len = self.tx_len;
        if pos < len {
            match &self.tx_buffer {
                Some(buf) => {
                    self.writes.push(UsartWrite::Thr(buf[pos] as u32));
                },
                None => {},
            }
            self.tx_pos = pos + 1;
            if self.tx_pos >= len {
                self.writes.push(UsartWrite::Idr(IR_TXRDY));
                self.writes.push(UsartWrite::Ier(IR_TXEMPTY));
                self.tx_state = TxState::WaitingEmpty;
            }
        }
        assert(self.writes@ =~= old(self).writes@ + tx_next_writes(*old(self)));
    }

    /// The line is empty after the last byte: the transmission is done.
    fn tx_empty(&mut self) -> (r: Option<TxDone>)
        requires
            old(self).wf(),
        ensures
            final(self).wf(),
            same_rx(*final(self), *old(self)),
            tx_finished(*final(self), *old(self), r, old(self).tx_len as int, Ok(())),
            final(self).writes@ == old(self).writes@.push(UsartWrite::Idr(IR_TXEMPTY)),
    {
        self.writes.push(UsartWrite::Idr(IR_TXEMPTY));
        match self.tx_buffer.take() {
            Some(buf) => {
                self.tx_state = TxState::Idle;
                if self.tx_client {
                    Some(TxDone { buffer: buf, len: self.tx_len, rcode: Ok(()) })
                } else {
                    None
                }
            },
            None => None,
        }
    }

    /// Handle an interrupt, given the channel status `csr`, the interrupt
    /// mask `imr`, the receive holding register `rhr` (read only when a
    /// byte is taken) and the DMA controller's byte counter `cubc` (read
    /// only when a DMA reception ends). In priority order: an overrun or
    /// idle line ends a DMA reception; a receive error or idle line ends an
    /// interrupt-driven one; otherwise a received byte is stored, the next
    /// byte is sent, and an emptied line ends the transmission. Finished
    /// buffers come back for the clients.
    #[verifier::rlimit(40)]
    pub fn handle_interrupt(&mut self, csr: u32, imr: u32, rhr: u32, cubc: u32) -> (r: (
        Option<RxDone>,
        Option<TxDone>,
    ))
        requires
            old(self).wf(),
            spec_branch(old(self).rx_state, csr, imr) is DmaOverrun || spec_branch(
                old(self).rx_state,
                csr,
                imr,
            ) is DmaTimeout ==> dma_counter_ok(old(self).xdmac, cubc),
        ensures
            final(self).wf(),
            interrupt_post(*final(self), *old(self), csr, imr, rhr, cubc, r),
    {
        if csr & IR_OVRE != 0 && self.rx_state == RxState::ReceivingDma {
            let d = self.dma_finish(cubc, true);
            return (d, None);
        }
        if csr & IR_TIMEOUT != 0 && imr & IR_TIMEOUT != 0 && self.rx_state == RxState::ReceivingDma {
            let d = self.dma_finish(cubc, false);
            return (d, None);
        }
        if csr & (IR_OVRE | IR_FRAME | IR_PARE) != 0 && imr & IR_RXRDY != 0 {
            self.writes.push(UsartWrite::Idr(IR_RXRDY | IR_TIMEOUT | IR_OVRE | IR_FRAME | IR_PARE));
            self.writes.push(UsartWrite::Cr(CR_RSTSTA));
            let error = if csr & IR_OVRE != 0 {
                UartError::OverrunError
            } else if csr & IR_FRAME != 0 {
                UartError::FramingError
            } else {
                UartError::ParityError
            };
            let pos = self.rx_pos;
            let d = self.finish_rx(pos, Err(ErrorCode::FAIL), error);
            return (d, None);
        }
        if csr & IR_TIMEOUT != 0 && imr & IR_TIMEOUT != 0 {
            self.writes.push(UsartWrite::Idr(IR_RXRDY | IR_TIMEOUT));
            self.writes.push(UsartWrite::Rtor(0));
            let pos = self.rx_pos;
            let d = self.finish_rx(pos, Ok(()), UartError::NoError);
            return (d, None);
        }
        let ghost w0 = self.writes@;
        let rx = if csr & IR_RXRDY != 0 && imr & IR_RXRDY != 0 {
            #[verifier::truncate]
            let byte: u8 = (rhr & 0xFF) as u8;
            self.rx_byte(byte)
        } else {
            None
        };
        let ghost w1 = self.writes@;
        let ghost s1 = *self;
        if csr & IR_TXRDY != 0 && imr & IR_TXRDY != 0 {
            self.tx_next();
        }
        let ghost w2 = self.writes@;
        let tx = if csr & IR_TXEMPTY != 0 && imr & IR_TXEMPTY != 0 {
            self.tx_empty()
        } else {
            None
        };
        proof {
            assert(tx_next_writes(s1) == tx_next_writes(*old(self)));
            assert(self.writes@ =~= old(self).writes@ + (w1.subrange(w0.len() as int, w1.len() as int)) + (w2.subrange(w1.len() as int, w2.len() as int)) + (self.writes@.subrange(w2.len() as int, self.writes@.len() as int)));
        }
        (rx, tx)
    }
}

/// The first `k` of `bytes` written over the start of `b`.
pub open spec fn filled(b: Seq<u8>, bytes: Seq<u8>, k: nat) -> Seq<u8> {
    Seq::new(b.len(), |i: int| if i < k { bytes[i] } else { b[i] })
}

/// The receiver state after `k` bytes of a reception that started in
/// `start`, which arrived as `bytes`.
pub open spec fn receiving_after(s: Usart1, start: Usart1, bytes: Seq<u8>, k: nat) -> bool {
    &&& s.rx_state == start.rx_state
    &&& s.rx_pos == k
    &&& s.rx_len == start.rx_len
    &&& s.rx_client == start.rx_client
    &&& s.rx_buffer is Some
    &&& opt_view(s.rx_buffer) == filled(opt_view(start.rx_buffer), bytes, k)
}

/// An interrupt that only delivers a received byte: the receiver is ready
/// and its interrupt enabled, with no receive error, overrun or idle-line
/// timeout.
pub open spec fn byte_interrupt(csr: u32, imr: u32) -> bool {
    &&& csr & IR_RXRDY != 0
    &&& imr & IR_RXRDY != 0
    &&& csr & IR_RX_ERRORS == 0
    &&& csr & IR_TIMEOUT == 0
}

/// Interrupt `j` of a run: `handle_interrupt` took the driver from
/// `states[j]` to `states[j + 1]` with result `(results[j], txs[j])`, for
/// registers that deliver the byte `bytes[j]` and nothing else.
pub open spec fn byte_step(
    states: Seq<Usart1>,
    results: Seq<Option<RxDone>>,
    txs: Seq<Option<TxDone>>,
    csrs: Seq<u32>,
    imrs: Seq<u32>,
    rhrs: Seq<u32>,
    cubcs: Seq<u32>,
    bytes: Seq<u8>,
    j: int,
) -> bool {
    &&& byte_interrupt(csrs[j], imrs[j])
    &&& bytes[j] == (rhrs[j] & 0xFF) as u8
    &&& interrupt_post(
        states[j + 1],
        states[j],
        csrs[j],
        imrs[j],
        rhrs[j],
        cubcs[j],
        (results[j], txs[j]),
    )
}

proof fn lemma_reception_prefix(
    states: Seq<Usart1>,
    results: Seq<Option<RxDone>>,
    txs: Seq<Option<TxDone>>,
    csrs: Seq<u32>,
    imrs: Seq<u32>,
    rhrs: Seq<u32>,
    cubcs: Seq<u32>,
    bytes: Seq<u8>,
    k: nat,
)
    requires
        bytes.len() >= 1,
        states.len() == bytes.len() + 1,
        states[0].rx_state == RxState::Receiving,
        states[0].rx_pos == 0,
        states[0].rx_len == bytes.len(),
        states[0].rx_buffer is Some,
        bytes.len() <= opt_view(states[0].rx_buffer).len(),
        forall|j: int|
            0 <= j < bytes.len() ==> #[trigger] byte_step(
                states,
                results,
                txs,
                csrs,
                imrs,
                rhrs,
                cubcs,
                bytes,
                j,
            ),
        k <= bytes.len(),
    ensures
        k < bytes.len() ==> receiving_after(states[k as int], states[0], bytes, k),
        forall|j: int|
            0 <= j < k ==> rx_byte_post(#[trigger] states[j + 1], states[j], results[j], bytes[j]),
        forall|j: int| 0 <= j < k && j + 1 < bytes.len() ==> (#[trigger] results[j]) is None,
    decreases k,
{
    let b0 = opt_view(states[0].rx_buffer);
    if k == 0 {
        assert(filled(b0, bytes, 0) =~= b0);
    } else {
        lemma_reception_prefix(states, results, txs, csrs, imrs, rhrs, cubcs, bytes, (k - 1) as nat);
        let j = k - 1;
        let o = states[j];
        assert(byte_step(states, results, txs, csrs, imrs, rhrs, cubcs, bytes, j));
        assert(o.rx_state == RxState::Receiving);
        assert(rx_byte_post(states[k as int], o, results[j], bytes[j]));
        assert(filled(b0, bytes, j as nat).update(j, bytes[j]) =~= filled(b0, bytes, k));
    }
}

/// A reception by interrupts: after `receive_buffer` accepted a buffer for
/// `n` bytes, `n` calls of `handle_interrupt` on interrupts that each only
/// deliver a byte (each step meeting `handle_interrupt`'s contract) fill
/// the buffer's first `n` bytes with them, in order, and finish the
/// reception exactly on the last one: no earlier interrupt reports
/// anything, the last reports the whole buffer with `n` bytes and no error
/// to the receive client (if there is one), and the receiver is idle
/// again, ready for the next reception.
pub proof fn reception_by_interrupts(
    states: Seq<Usart1>,
    results: Seq<Option<RxDone>>,
    txs: Seq<Option<TxDone>>,
    csrs: Seq<u32>,
    imrs: Seq<u32>,
    rhrs: Seq<u32>,
    cubcs: Seq<u32>,
    bytes: Seq<u8>,
)
    requires
        bytes.len() >= 1,
        states.len() == bytes.len() + 1,
        states[0].rx_state == RxState::Receiving,
        states[0].rx_pos == 0,
        states[0].rx_len == bytes.len(),
        states[0].rx_buffer is Some,
        bytes.len() <= opt_view(states[0].rx_buffer).len(),
        forall|j: int|
            0 <= j < bytes.len() ==> #[trigger] byte_step(
                states,
                results,
                txs,
                csrs,
                imrs,
                rhrs,
                cubcs,
                bytes,
                j,
            ),
    ensures
        forall|j: int|
            0 <= j < bytes.len() - 1 ==> (#[trigger] results[j]) is None && states[j + 1].rx_state
                == RxState::Receiving,
        states.last().rx_state == RxState::Idle,
        states.last().rx_buffer is None,
        states[0].rx_client ==> (results[bytes.len() - 1] matches Some(d) && d.buffer@ == filled(
            opt_view(states[0].rx_buffer),
            bytes,
            bytes.len(),
        ) && d.len == bytes.len() && d.rcode == Ok::<(), ErrorCode>(()) && d.error
            == UartError::NoError),
        !states[0].rx_client ==> results[bytes.len() - 1] is None,
{
    let n = bytes.len();
    let b0 = opt_view(states[0].rx_buffer);
    lemma_reception_prefix(states, results, txs, csrs, imrs, rhrs, cubcs, bytes, n);
    lemma_reception_prefix(states, results, txs, csrs, imrs, rhrs, cubcs, bytes, (n - 1) as nat);
    assert forall|j: int| 0 <= j < n - 1 implies (#[trigger] results[j]) is None
        && states[j + 1].rx_state == RxState::Receiving by {
        lemma_reception_prefix(states, results, txs, csrs, imrs, rhrs, cubcs, bytes, (j + 1) as nat);
    }
    let o = states[n - 1];
    assert(rx_byte_post(states[n as int], o, results[n - 1], bytes[n - 1]));
    assert(filled(b0, bytes, (n - 1) as nat).update(n - 1, bytes[n - 1]) =~= filled(b0, bytes, n));
}

/// The parity field (bits 9 to 11) of a mode register value.
pub open spec fn mr_parity_field(mr: u32) -> u32 {
    (mr >> 9u32) & 7
}

/// The stop-bits field (bits 12 and 13) of a mode register value.
pub open spec fn mr_stop_field(mr: u32) -> u32 {
    (mr >> 12u32) & 3
}

/// The character-length field (bits 6 and 7) of a mode register value.
pub open spec fn mr_char_field(mr: u32) -> u32 {
    (mr >> 6u32) & 3
}

proof fn lemma_mr_fields(par: u32, stop: u32)
    by (bit_vector)
    requires
        par < 8,
        stop < 4,
    ensures
        (((3u32 << 6u32) | (par << 9u32) | (stop << 12u32)) >> 9u32) & 7 == par,
        (((3u32 << 6u32) | (par << 9u32) | (stop << 12u32)) >> 12u32) & 3 == stop,
        (((3u32 << 6u32) | (par << 9u32) | (stop << 12u32)) >> 6u32) & 3 == 3,
        ((3u32 << 6u32) | (par << 9u32) | (stop << 12u32)) & !0x3EC0u32 == 0,
{
}

/// Configuring the line writes the frame format the datasheet gives for
/// what was asked, as the second write: 8-bit characters; parity field 0
/// for even, 1 for odd, 4 for none; stop-bits field 0 for one stop bit, 2
/// for two; every other mode bit clear (master clock, normal channel mode,
/// 16 times oversampling).
pub proof fn configure_writes_requested_format(p: Parameters)
    ensures
        spec_configure_writes(p)[1] matches UsartWrite::Mr(mr) && {
            &&& mr_char_field(mr) == 3
            &&& p.parity == Parity::Even ==> mr_parity_field(mr) == 0
            &&& p.parity == Parity::Odd ==> mr_parity_field(mr) == 1
            &&& p.parity == Parity::NoParity ==> mr_parity_field(mr) == 4
            &&& p.stop_bits == StopBits::One ==> mr_stop_field(mr) == 0
            &&& p.stop_bits == StopBits::Two ==> mr_stop_field(mr) == 2
            &&& mr & !0x3EC0u32 == 0
        },
{
    let par: u32 = if p.parity == Parity::NoParity {
        4
    } else if p.parity == Parity::Odd {
        1
    } else {
        0
    };
    let stop: u32 = if p.stop_bits == StopBits::Two {
        2
    } else {
        0
    };
    lemma_mr_fields(par, stop);
}

proof fn lemma_low_half(x: u32)
    by (bit_vector)
    requires
        x < 0x10000,
    ensures
        x & 0xFFFF == x,
{
}

/// Configuring the line sets the baud rate divisor so that sixteen samples
/// per bit at the requested rate fit the master clock: the divisor is the
/// largest `cd` with `16 * baud * cd <= MCK` (whenever that fits the 16-bit
/// field), the third write.
pub proof fn configure_divides_master_clock(p: Parameters)
    requires
        0 < p.baud_rate <= u32::MAX / 16,
        (MCK_HZ as int) / (16 * p.baud_rate) < 0x10000,
    ensures
        spec_configure_writes(p)[2] matches UsartWrite::Brgr(cd) && 16 * p.baud_rate * cd <= MCK_HZ
            < 16 * p.baud_rate * (cd + 1),
{
    let d: int = 16 * p.baud_rate;
    let q: int = (MCK_HZ as int) / d;
    assert(((d as u32) as int) == d);
    lemma_low_half(q as u32);
    assert(d * q <= MCK_HZ < d * (q + 1)) by (nonlinear_arith)
        requires
            d > 0,
            q == (MCK_HZ as int) / d,
    ;
}

} // verus!
