//! TWIHS: the I2C master of the SAM V71, interrupt driven, byte by byte.
//!
//! The driver is a state machine: starting a transfer and each interrupt
//! produce the register writes to perform, in order, and at the end of a
//! transfer hand the buffer back with its outcome.
use vstd::prelude::*;
use crate::hil_i2c::I2cError;

verus! {

pub const TWIHS0_BASE: u32 = 0x4001_8000;
pub const TWIHS1_BASE: u32 = 0x4001_C000;
pub const TWIHS2_BASE: u32 = 0x4006_0000;
pub const TWIHS0_PID: u32 = 19;
pub const TWIHS1_PID: u32 = 20;
pub const TWIHS2_PID: u32 = 41;

/// Write-protection key, ASCII "TWI".
pub const WP_KEY: u32 = 0x54_57_49;

/// Master clock after start-up.
pub const MCK_HZ: u32 = 150_000_000;

/// Control register bits.
pub const CR_START: u32 = 1 << 0;
pub const CR_STOP: u32 = 1 << 1;
pub const CR_MSEN: u32 = 1 << 2;
pub const CR_MSDIS: u32 = 1 << 3;
pub const CR_SVDIS: u32 = 1 << 5;
pub const CR_SWRST: u32 = 1 << 7;

/// Master mode register: read direction bit.
pub const MMR_MREAD: u32 = 1 << 12;

/// Status and interrupt bits.
pub const SR_TXCOMP: u32 = 1 << 0;
pub const SR_RXRDY: u32 = 1 << 1;
pub const SR_TXRDY: u32 = 1 << 2;
pub const SR_OVRE: u32 = 1 << 6;
pub const SR_NACK: u32 = 1 << 8;
pub const SR_ARBLST: u32 = 1 << 9;

/// The interrupts that report errors.
pub const ERROR_INTERRUPTS: u32 = SR_NACK | SR_ARBLST | SR_OVRE;

/// Where a transfer stands.
#[derive(Clone, Copy, Debug, PartialEq, Eq, Structural)]
pub enum TwihsState {
    Idle,
    /// Pure write: `pos` of `len` bytes handed over.
    Writing { len: usize, pos: usize },
    /// Write phase of a write-then-read, then `read_len` bytes to read.
    WriteReading { write_len: usize, write_pos: usize, read_len: usize },
    /// Read phase: `pos` of `len` bytes received.
    Reading { len: usize, pos: usize },
}

/// A register write.
#[derive(Clone, Copy, Debug, PartialEq, Eq, Structural)]
pub enum TwihsWrite {
    Cr(u32),
    Mmr(u32),
    /// Read-modify-write of the master mode register: clear the first
    /// mask, then set the second.
    ModifyMmr(u32, u32),
    Iadr(u32),
    Thr(u32),
    Ier(u32),
    Idr(u32),
    Cwgr(u32),
    Wpmr(u32),
}

/// A finished transfer: the buffer handed back, with the outcome.
pub type Completion = (Vec<u8>, Result<(), I2cError>);

/// The master mode register value for a transfer to `addr`.
pub open spec fn spec_mmr(addr: u8, read: bool, iadrsz: u32) -> u32 {
    (((addr as u32) & 0x7F) << 16u32) | (if read {
        MMR_MREAD
    } else {
        0
    }) | ((iadrsz & 3) << 8u32)
}

/// The master mode register value for a transfer to `addr`.
pub fn mmr_value(addr: u8, read: bool, iadrsz: u32) -> (r: u32)
    ensures
        r == spec_mmr(addr, read, iadrsz),
{
    (((addr as u32) & 0x7F) << 16u32) | (if read {
        MMR_MREAD
    } else {
        0
    }) | ((iadrsz & 3) << 8u32)
}

/// The divider and its exponent for a clock target: halve until it fits
/// in 8 bits or the exponent reaches 7.
pub open spec fn spec_speed_div(div: u32, ckdiv: u32) -> (u32, u32)
    decreases 7 - ckdiv,
{
    if div > 255 && ckdiv < 7 {
        spec_speed_div(div / 2, (ckdiv + 1) as u32)
    } else {
        (div, ckdiv)
    }
}

/// The clock waveform register value for `freq_hz`: symmetric high and low
/// dividers `d` with exponent `k` such that `d * 2^k` is about
/// `MCK / (2 * freq) - 3`.
pub open spec fn spec_cwgr(freq_hz: u32) -> u32 {
    let target = MCK_HZ / (2 * freq_hz) as u32;
    let start = if target >= 3 {
        (target - 3) as u32
    } else {
        0u32
    };
    let (div, ckdiv) = spec_speed_div(start, 0);
    (div & 0xFF) | ((div & 0xFF) << 8u32) | ((ckdiv & 7) << 16u32)
}

/// The internal address formed by the first `n` bytes, most significant
/// first.
pub open spec fn spec_iadr(data: Seq<u8>, n: nat) -> u32
    decreases n,
{
    if n == 0 {
        0
    } else {
        ((spec_iadr(data, (n - 1) as nat) << 8u32) | (data[n - 1] as u32)) as u32
    }
}


/// Mask of the device address field of the master mode register.
pub const MMR_DADR_MASK: u32 = 0x7F << 16;

/// The writes that mask every interrupt.
pub open spec fn mask_all() -> Seq<TwihsWrite> {
    seq![TwihsWrite::Idr(0xFFFF_FFFF)]
}

/// The writes that start a read phase of `len` bytes: mask everything,
/// START (with STOP too for a single byte), then receive-ready and error
/// interrupts.
pub open spec fn read_phase_writes(len: usize) -> Seq<TwihsWrite> {
    seq![
        TwihsWrite::Idr(0xFFFF_FFFF),
        TwihsWrite::Cr(
            if len == 1 {
                CR_START | CR_STOP
            } else {
                CR_START
            },
        ),
        TwihsWrite::Ier(SR_RXRDY),
        TwihsWrite::Ier(ERROR_INTERRUPTS),
    ]
}

/// The writes that start sending bytes, the first being `first`.
pub open spec fn write_phase_writes(first: u8) -> Seq<TwihsWrite> {
    seq![
        TwihsWrite::Idr(0xFFFF_FFFF),
        TwihsWrite::Thr(first as u32),
        TwihsWrite::Ier(SR_TXRDY),
        TwihsWrite::Ier(ERROR_INTERRUPTS),
    ]
}

/// The writes that reset the controller into master mode.
pub open spec fn reset_writes() -> Seq<TwihsWrite> {
    seq![TwihsWrite::Cr(CR_SWRST), TwihsWrite::Cr(CR_SVDIS | CR_MSEN)]
}

/// The error a status reports, checked in priority order: address
/// not acknowledged, arbitration lost, overrun.
pub open spec fn status_error(sr: u32) -> Option<I2cError> {
    if sr & SR_NACK != 0 {
        Some(I2cError::AddressNak)
    } else if sr & SR_ARBLST != 0 {
        Some(I2cError::ArbitrationLost)
    } else if sr & SR_OVRE != 0 {
        Some(I2cError::Overrun)
    } else {
        None
    }
}

/// Whether an interrupt with status `sr` and mask `imr` is acted on at all:
/// some enabled interrupt is pending.
pub open spec fn is_active(sr: u32, imr: u32) -> bool {
    sr & imr != 0
}

/// Whether the interrupt takes a received byte into the buffer.
pub open spec fn takes_byte(state: TwihsState, sr: u32, imr: u32) -> bool {
    &&& is_active(sr, imr)
    &&& status_error(sr) is None
    &&& state is Reading
    &&& sr & SR_RXRDY != 0
}

/// Whether the interrupt ends the transfer, and how.
pub open spec fn step_outcome(state: TwihsState, sr: u32, imr: u32) -> Option<Result<(), I2cError>> {
    if !is_active(sr, imr) {
        None
    } else if status_error(sr) is Some {
        Some(Err(status_error(sr).unwrap()))
    } else {
        match state {
            TwihsState::Writing { .. } | TwihsState::Reading { .. } => if sr & SR_TXCOMP != 0 {
                Some(Ok(()))
            } else {
                None
            },
            _ => None,
        }
    }
}

/// The state after an interrupt.
pub open spec fn step_state(state: TwihsState, sr: u32, imr: u32) -> TwihsState {
    if step_outcome(state, sr, imr) is Some {
        TwihsState::Idle
    } else if !is_active(sr, imr) {
        state
    } else {
        match state {
            TwihsState::Writing { len, pos } => if sr & SR_TXRDY != 0 && pos < len {
                TwihsState::Writing { len, pos: (pos + 1) as usize }
            } else {
                state
            },
            TwihsState::WriteReading { write_len, write_pos, read_len } => if sr & SR_TXRDY != 0 {
                if write_pos < write_len {
                    TwihsState::WriteReading {
                        write_len,
                        write_pos: (write_pos + 1) as usize,
                        read_len,
                    }
                } else {
                    TwihsState::Reading { len: read_len, pos: 0 }
                }
            } else {
                state
            },
            TwihsState::Reading { len, pos } => if sr & SR_RXRDY != 0 {
                TwihsState::Reading { len, pos: (pos + 1) as usize }
            } else {
                state
            },
            TwihsState::Idle => state,
        }
    }
}

/// The buffer contents after an interrupt: a received byte is stored at
/// the read position.
pub open spec fn step_buffer(state: TwihsState, buf: Seq<u8>, sr: u32, imr: u32, rhr: u32) -> Seq<u8> {
    if takes_byte(state, sr, imr) {
        buf.update(state->Reading_pos as int, (rhr & 0xFF) as u8)
    } else {
        buf
    }
}

/// The register writes of an interrupt in the write state.
pub open spec fn writing_writes(len: usize, pos: usize, buf: Seq<u8>, sr: u32) -> Seq<TwihsWrite> {
    let tx = if sr & SR_TXRDY != 0 {
        if pos < len {
            seq![TwihsWrite::Thr(buf[pos as int] as u32)]
        } else {
            seq![
                TwihsWrite::Cr(CR_STOP),
                TwihsWrite::Idr(0xFFFF_FFFF),
                TwihsWrite::Ier(SR_TXCOMP),
                TwihsWrite::Ier(ERROR_INTERRUPTS),
            ]
        }
    } else {
        Seq::empty()
    };
    tx + if sr & SR_TXCOMP != 0 {
        mask_all()
    } else {
        Seq::empty()
    }
}

/// The register writes of an interrupt in the write phase of a
/// write-then-read: the next byte, or the switch to reading.
pub open spec fn write_reading_writes(
    write_len: usize,
    write_pos: usize,
    read_len: usize,
    buf: Seq<u8>,
    addr: u8,
    sr: u32,
) -> Seq<TwihsWrite> {
    if sr & SR_TXRDY != 0 {
        if write_pos < write_len {
            seq![TwihsWrite::Thr(buf[write_pos as int] as u32)]
        } else {
            seq![
                TwihsWrite::Idr(0xFFFF_FFFF),
                TwihsWrite::ModifyMmr(MMR_DADR_MASK | MMR_MREAD, spec_mmr(addr, true, 0)),
                TwihsWrite::Cr(
                    if read_len == 1 {
                        CR_START | CR_STOP
                    } else {
                        CR_START
                    },
                ),
                TwihsWrite::Ier(SR_RXRDY),
                TwihsWrite::Ier(ERROR_INTERRUPTS),
            ]
        }
    } else {
        Seq::empty()
    }
}

/// The register writes of an interrupt in the read state: after the last
/// byte wait for completion; before it, ask for STOP.
pub open spec fn reading_writes(len: usize, pos: usize, sr: u32) -> Seq<TwihsWrite> {
    let rx = if sr & SR_RXRDY != 0 {
        if pos + 1 == len {
            seq![
                TwihsWrite::Idr(0xFFFF_FFFF),
                TwihsWrite::Ier(SR_TXCOMP),
                TwihsWrite::Ier(ERROR_INTERRUPTS),
            ]
        } else if pos + 1 == len - 1 {
            seq![TwihsWrite::Cr(CR_STOP)]
        } else {
            Seq::empty()
        }
    } else {
        Seq::empty()
    };
    rx + if sr & SR_TXCOMP != 0 {
        mask_all()
    } else {
        Seq::empty()
    }
}

/// The register writes of an interrupt.
pub open spec fn step_writes(state: TwihsState, buf: Seq<u8>, addr: u8, sr: u32, imr: u32) -> Seq<
    TwihsWrite,
> {
    if !is_active(sr, imr) {
        Seq::empty()
    } else if status_error(sr) is Some {
        reset_writes() + mask_all()
    } else {
        match state {
            TwihsState::Writing { len, pos } => writing_writes(len, pos, buf, sr),
            TwihsState::WriteReading { write_len, write_pos, read_len } => write_reading_writes(
                write_len,
                write_pos,
                read_len,
                buf,
                addr,
                sr,
            ),
            TwihsState::Reading { len, pos } => reading_writes(len, pos, sr),
            TwihsState::Idle => Seq::empty(),
        }
    }
}

/// The driver.
pub struct Twihs {
    /// Base address of the controller's registers.
    pub base: u32,
    pub state: TwihsState,
    pub addr: u8,
    pub buffer: Option<Vec<u8>>,
    /// Whether a client is registered.
    pub client: bool,
    /// Register writes for the board to perform, oldest first.
    pub writes: Vec<TwihsWrite>,
}

/// While a transfer runs, the buffer is held and covers it, and positions
/// stay within it.
pub open spec fn transfer_wf(state: TwihsState, buffer: Option<Vec<u8>>) -> bool {
    match state {
        TwihsState::Idle => true,
        TwihsState::Writing { len, pos } => buffer is Some && 1 <= pos <= len && len
            <= buffer.unwrap()@.len(),
        TwihsState::WriteReading { write_len, write_pos, read_len } => buffer is Some && 1
            <= write_pos <= write_len && write_len <= buffer.unwrap()@.len() && 1 <= read_len
            <= buffer.unwrap()@.len(),
        TwihsState::Reading { len, pos } => buffer is Some && 1 <= len <= buffer.unwrap()@.len()
            && pos <= buffer.unwrap()@.len(),
    }
}

/// The buffer's contents, empty when there is none.
pub open spec fn buffer_view(buffer: Option<Vec<u8>>) -> Seq<u8> {
    match buffer {
        Some(b) => b@,
        None => Seq::empty(),
    }
}

impl Twihs {
    pub open spec fn wf(&self) -> bool {
        transfer_wf(self.state, self.buffer)
    }

    /// An idle driver for the controller at `base`, with no client.
    pub fn new(base: u32) -> (r: Twihs)
        ensures
            r.wf(),
            r.base == base,
            r.state == TwihsState::Idle,
            r.addr == 0,
            r.buffer is None,
            !r.client,
            r.writes@.len() == 0,
    {
        Twihs { base, state: TwihsState::Idle, addr: 0, buffer: None, client: false, writes: Vec::new() }
    }

    /// The driver of TWIHS0.
    pub fn new_twihs0() -> (r: Twihs)
        ensures
            r.wf(),
            r.base == TWIHS0_BASE,
            r.state == TwihsState::Idle,
            r.buffer is None,
            !r.client,
            r.writes@.len() == 0,
    {
        Twihs::new(TWIHS0_BASE)
    }

    /// The driver of TWIHS1.
    pub fn new_twihs1() -> (r: Twihs)
        ensures
            r.wf(),
            r.base == TWIHS1_BASE,
            r.state == TwihsState::Idle,
            r.buffer is None,
            !r.client,
            r.writes@.len() == 0,
    {
        Twihs::new(TWIHS1_BASE)
    }

    /// The driver of TWIHS2.
    pub fn new_twihs2() -> (r: Twihs)
        ensures
            r.wf(),
            r.base == TWIHS2_BASE,
            r.state == TwihsState::Idle,
            r.buffer is None,
            !r.client,
            r.writes@.len() == 0,
    {
        Twihs::new(TWIHS2_BASE)
    }

    /// Register the client (or remove it).
    pub fn set_master_client(&mut self, present: bool)
        requires
            old(self).wf(),
        ensures
            final(self).wf(),
            final(self).client == present,
            final(self).base == old(self).base,
            final(self).state == old(self).state,
            final(self).addr == old(self).addr,
            final(self).buffer == old(self).buffer,
            final(self).writes@ == old(self).writes@,
    {
        self.client = present;
    }

    /// Set the bus clock to `freq_hz`: lift write protection (so that later
    /// mode register writes take effect), then program symmetric high and
    /// low dividers `d` with exponent `k`, `d * 2^k` being
    /// `MCK / (2 * freq) - 3` halved until it fits in 8 bits.
    pub fn set_speed(&mut self, freq_hz: u32)
        requires
            0 < freq_hz <= u32::MAX / 2,
        ensures
            final(self).writes@ == old(self).writes@ + seq![
                TwihsWrite::Wpmr(WP_KEY << 8u32),
                TwihsWrite::Cwgr(spec_cwgr(freq_hz)),
            ],
            final(self).base == old(self).base,
            final(self).state == old(self).state,
            final(self).addr == old(self).addr,
            final(self).buffer == old(self).buffer,
            final(self).client == old(self).client,
    {
        let target = MCK_HZ / (2 * freq_hz);
        let mut ckdiv: u32 = 0;
        let mut div: u32 = if target >= 3 {
            target - 3
        } else {
            0
        };
        while div > 255 && ckdiv < 7
            invariant
                ckdiv <= 7,
                spec_speed_div(div, ckdiv) == spec_speed_div(
                    if target >= 3 {
                        (target - 3) as u32
                    } else {
                        0u32
                    },
                    0,
                ),
            decreases 7 - ckdiv,
        {
            ckdiv = ckdiv + 1;
            div = div / 2;
        }
        assert((WP_KEY & 0xFF_FFFF) << 8u32 == WP_KEY << 8u32) by (bit_vector);
        self.writes.push(TwihsWrite::Wpmr((WP_KEY & 0xFF_FFFF) << 8u32));
        self.writes.push(
            TwihsWrite::Cwgr((div & 0xFF) | ((div & 0xFF) << 8u32) | ((ckdiv & 7) << 16u32)),
        );
    }

    /// Reset the controller and enable it as a 400 kHz master.
    pub fn enable(&mut self)
        ensures
            final(self).writes@ == old(self).writes@ + seq![
                TwihsWrite::Cr(CR_SWRST),
                TwihsWrite::Wpmr(WP_KEY << 8u32),
                TwihsWrite::Cwgr(spec_cwgr(400_000)),
                TwihsWrite::Cr(CR_SVDIS | CR_MSEN),
            ],
            final(self).base == old(self).base,
            final(self).state == old(self).state,
            final(self).addr == old(self).addr,
            final(self).buffer == old(self).buffer,
            final(self).client == old(self).client,
    {
        self.writes.push(TwihsWrite::Cr(CR_SWRST));
        self.set_speed(400_000);
        self.writes.push(TwihsWrite::Cr(CR_SVDIS | CR_MSEN));
    }

    /// Mask every interrupt and turn master mode off.
    pub fn disable(&mut self)
        ensures
            final(self).writes@ == old(self).writes@ + seq![
                TwihsWrite::Idr(0xFFFF_FFFF),
                TwihsWrite::Cr(CR_MSDIS),
            ],
            final(self).base == old(self).base,
            final(self).state == old(self).state,
            final(self).addr == old(self).addr,
            final(self).buffer == old(self).buffer,
            final(self).client == old(self).client,
    {
        self.writes.push(TwihsWrite::Idr(0xFFFF_FFFF));
        self.writes.push(TwihsWrite::Cr(CR_MSDIS));
    }

    /// Start writing the first `len` bytes of `data` to `addr`. `Busy`
    /// during another transfer; `Overrun` for an empty transfer or one
    /// longer than the buffer. Writing the first byte starts the transfer.
    pub fn write(&mut self, addr: u8, data: Vec<u8>, len: usize) -> (r: Result<(), (I2cError, Vec<u8>)>)
        requires
            old(self).wf(),
        ensures
            final(self).wf(),
            final(self).client == old(self).client,
            final(self).base == old(self).base,
            old(self).state != TwihsState::Idle ==> (r matches Err((e, b)) && e == I2cError::Busy
                && b@ == data@) && *final(self) == *old(self),
            old(self).state == TwihsState::Idle && (len == 0 || len > data@.len()) ==> (r matches Err((e, b))
                && e == I2cError::Overrun && b@ == data@) && *final(self) == *old(self),
            old(self).state == TwihsState::Idle && !(len == 0 || len > data@.len()) ==> {
                &&& r is Ok
                &&& final(self).state == (TwihsState::Writing { len, pos: 1 })
                &&& final(self).addr == addr
                &&& final(self).buffer matches Some(b) && b@ == data@
                &&& final(self).writes@ == old(self).writes@ + seq![
                    TwihsWrite::Mmr(spec_mmr(addr, false, 0)),
                ] + write_phase_writes(data@[0])
            },
    {
        if self.state != TwihsState::Idle {
            return Err((I2cError::Busy, data));
        }
        if len == 0 || len > data.len() {
            return Err((I2cError::Overrun, data));
        }
        self.addr = addr;
        self.writes.push(TwihsWrite::Mmr(mmr_value(addr, false, 0)));
        let first = data[0];
        self.buffer = Some(data);
        self.state = TwihsState::Writing { len, pos: 1 };
        self.writes.push(TwihsWrite::Idr(0xFFFF_FFFF));
        self.writes.push(TwihsWrite::Thr(first as u32));
        self.writes.push(TwihsWrite::Ier(SR_TXRDY));
        self.writes.push(TwihsWrite::Ier(SR_NACK | SR_ARBLST | SR_OVRE));
        Ok(())
    }

    /// Queue the writes that start a read phase of `len` bytes.
    fn start_read_phase(&mut self, len: usize)
        ensures
            final(self).writes@ == old(self).writes@ + read_phase_writes(len),
            final(self).base == old(self).base,
            final(self).state == old(self).state,
            final(self).addr == old(self).addr,
            final(self).buffer == old(self).buffer,
            final(self).client == old(self).client,
    {
        self.writes.push(TwihsWrite::Idr(0xFFFF_FFFF));
        if len == 1 {
            self.writes.push(TwihsWrite::Cr(CR_START | CR_STOP));
        } else {
            self.writes.push(TwihsWrite::Cr(CR_START));
        }
        self.writes.push(TwihsWrite::Ier(SR_RXRDY));
        self.writes.push(TwihsWrite::Ier(SR_NACK | SR_ARBLST | SR_OVRE));
    }

    /// Start reading `len` bytes from `addr` into `buffer`. `Busy` during
    /// another transfer; `Overrun` for an empty transfer or one longer than
    /// the buffer.
    pub fn read(&mut self, addr: u8, buffer: Vec<u8>, len: usize) -> (r: Result<(), (I2cError, Vec<u8>)>)
        requires
            old(self).wf(),
        ensures
            final(self).wf(),
            final(self).client == old(self).client,
            final(self).base == old(self).base,
            old(self).state != TwihsState::Idle ==> (r matches Err((e, b)) && e == I2cError::Busy
                && b@ == buffer@) && *final(self) == *old(self),
            old(self).state == TwihsState::Idle && (len == 0 || len > buffer@.len()) ==> (r matches Err((e, b))
                && e == I2cError::Overrun && b@ == buffer@) && *final(self) == *old(self),
            old(self).state == TwihsState::Idle && !(len == 0 || len > buffer@.len()) ==> {
                &&& r is Ok
                &&& final(self).state == (TwihsState::Reading { len, pos: 0 })
                &&& final(self).addr == addr
                &&& final(self).buffer matches Some(b) && b@ == buffer@
                &&& final(self).writes@ == old(self).writes@ + seq![
                    TwihsWrite::Mmr(spec_mmr(addr, true, 0)),
                ] + read_phase_writes(len)
            },
    {
        if self.state != TwihsState::Idle {
            return Err((I2cError::Busy, buffer));
        }
        if len == 0 || len > buffer.len() {
            return Err((I2cError::Overrun, buffer));
        }
        self.addr = addr;
        self.writes.push(TwihsWrite::Mmr(mmr_value(addr, true, 0)));
        self.buffer = Some(buffer);
        self.state = TwihsState::Reading { len, pos: 0 };
        self.start_read_phase(len);
        Ok(())
    }

    /// Write `write_len` bytes of `data` to `addr`, then read `read_len`
    /// bytes back into it. Up to three bytes go out as the controller's
    /// internal address, so the controller runs the whole transfer; longer
    /// writes are sent byte by byte before the read. `Busy` during another
    /// transfer; `Overrun` when either length is zero or exceeds the buffer.
    pub fn write_read(
        &mut self,
        addr: u8,
        data: Vec<u8>,
        write_len: usize,
        read_len: usize,
    ) -> (r: Result<(), (I2cError, Vec<u8>)>)
        requires
            old(self).wf(),
        ensures
            final(self).wf(),
            final(self).client == old(self).client,
            final(self).base == old(self).base,
            old(self).state != TwihsState::Idle ==> (r matches Err((e, b)) && e == I2cError::Busy
                && b@ == data@) && *final(self) == *old(self),
            old(self).state == TwihsState::Idle && (write_len == 0 || read_len == 0 || write_len
                > data@.len() || read_len > data@.len()) ==> (r matches Err((e, b)) && e
                == I2cError::Overrun && b@ == data@) && *final(self) == *old(self),
            old(self).state == TwihsState::Idle && !(write_len == 0 || read_len == 0 || write_len
                > data@.len() || read_len > data@.len()) ==> {
                &&& r is Ok
                &&& final(self).addr == addr
                &&& final(self).buffer matches Some(b) && b@ == data@
                &&& if write_len <= 3 {
                    &&& final(self).state == (TwihsState::Reading { len: read_len, pos: 0 })
                    &&& final(self).writes@ == old(self).writes@ + seq![
                        TwihsWrite::Mmr(spec_mmr(addr, true, write_len as u32)),
                        TwihsWrite::Iadr(spec_iadr(data@, write_len as nat) & 0xFF_FFFF),
                    ] + read_phase_writes(read_len)
                } else {
                    &&& final(self).state == (TwihsState::WriteReading {
                        write_len,
                        write_pos: 1,
                        read_len,
                    })
                    &&& final(self).writes@ == old(self).writes@ + seq![
                        TwihsWrite::Mmr(spec_mmr(addr, false, 0)),
                    ] + write_phase_writes(data@[0])
                }
            },
    {
        if self.state != TwihsState::Idle {
            return Err((I2cError::Busy, data));
        }
        if write_len == 0 || read_len == 0 {
            return Err((I2cError::Overrun, data));
        }
        let needed = if write_len > read_len {
            write_len
        } else {
            read_len
        };
        if needed > data.len() {
            return Err((I2cError::Overrun, data));
        }
        self.addr = addr;
        if write_len <= 3 {
            let mut iadr: u32 = 0;
            let mut i: usize = 0;
            assert(0u32 < (1u32 << 0u32)) by (bit_vector);
            while i < write_len
                invariant
                    i <= write_len <= 3,
                    write_len <= data@.len(),
                    iadr == spec_iadr(data@, i as nat),
                    iadr < (1u32 << (8 * i) as u32),
                decreases write_len - i,
            {
                proof {
                    let b = data@[i as int];
                    if i == 0 {
                        assert(((iadr << 8u32) | (b as u32)) < (1u32 << 8u32)) by (bit_vector)
                            requires
                                iadr < (1u32 << 0u32),
                        ;
                    } else if i == 1 {
                        assert(((iadr << 8u32) | (b as u32)) < (1u32 << 16u32)) by (bit_vector)
                            requires
                                iadr < (1u32 << 8u32),
                        ;
                    } else {
                        assert(((iadr << 8u32) | (b as u32)) < (1u32 << 24u32)) by (bit_vector)
                            requires
                                iadr < (1u32 << 16u32),
                        ;
                    }
                }
                iadr = (iadr << 8u32) | (data[i] as u32);
                i = i + 1;
            }
            self.writes.push(TwihsWrite::Mmr(mmr_value(addr, true, write_len as u32)));
            self.writes.push(TwihsWrite::Iadr(iadr & 0xFF_FFFF));
            self.buffer = Some(data);
            self.state = TwihsState::Reading { len: read_len, pos: 0 };
            self.start_read_phase(read_len);
        } else {
            self.writes.push(TwihsWrite::Mmr(mmr_value(addr, false, 0)));
            let first = data[0];
            self.buffer = Some(data);
            self.state = TwihsState::WriteReading { write_len, write_pos: 1, read_len };
            self.writes.push(TwihsWrite::Idr(0xFFFF_FFFF));
            self.writes.push(TwihsWrite::Thr(first as u32));
            self.writes.push(TwihsWrite::Ier(SR_TXRDY));
            self.writes.push(TwihsWrite::Ier(SR_NACK | SR_ARBLST | SR_OVRE));
        }
        Ok(())
    }

    /// End the transfer: mask every interrupt, go idle and, when a client is
    /// registered, hand the buffer back with `status`.
    fn finish(&mut self, status: Result<(), I2cError>) -> (r: Option<Completion>)
        ensures
            final(self).writes@ == old(self).writes@ + mask_all(),
            final(self).state == TwihsState::Idle,
            final(self).base == old(self).base,
            final(self).addr == old(self).addr,
            final(self).client == old(self).client,
            final(self).buffer == if old(self).client {
                None
            } else {
                old(self).buffer
            },
            old(self).client && old(self).buffer is Some ==> (r matches Some((b, s)) && b@
                == old(self).buffer.unwrap()@ && s == status),
            !(old(self).client && old(self).buffer is Some) ==> r is None,
    {
        self.writes.push(TwihsWrite::Idr(0xFFFF_FFFF));
        self.state = TwihsState::Idle;
        if self.client {
            match self.buffer.take() {
                Some(buf) => Some((buf, status)),
                None => None,
            }
        } else {
            None
        }
    }

    /// Handle an interrupt, given the status register `sr`, the interrupt
    /// mask `imr` and, when a byte is received, the receive holding register
    /// `rhr`. Nothing happens unless an enabled interrupt is pending. An
    /// error (address not acknowledged, arbitration lost, overrun, in that
    /// order) resets the controller and ends the transfer. Otherwise the
    /// transfer advances by a byte; completion ends it. The finished buffer
    /// and outcome come back for the client.
    pub fn handle_interrupt(&mut self, sr: u32, imr: u32, rhr: u32) -> (r: Option<Completion>)
        requires
            old(self).wf(),
            takes_byte(old(self).state, sr, imr) ==> old(self).state->Reading_pos
                < buffer_view(old(self).buffer).len(),
        ensures
            final(self).wf(),
            final(self).base == old(self).base,
            final(self).addr == old(self).addr,
            final(self).client == old(self).client,
            final(self).state == step_state(old(self).state, sr, imr),
            final(self).writes@ == old(self).writes@ + step_writes(
                old(self).state,
                buffer_view(old(self).buffer),
                old(self).addr,
                sr,
                imr,
            ),
            ({
                let done = step_outcome(old(self).state, sr, imr);
                let after = step_buffer(old(self).state, buffer_view(old(self).buffer), sr, imr, rhr);
                &&& done is Some && old(self).client ==> final(self).buffer is None
                &&& !(done is Some && old(self).client) ==> (final(self).buffer is Some
                    <==> old(self).buffer is Some) && buffer_view(final(self).buffer) == after
                &&& done is Some && old(self).client && old(self).buffer is Some ==> (r matches Some(
                    (b, s),
                ) && b@ == after && s == done.unwrap())
                &&& !(done is Some && old(self).client && old(self).buffer is Some) ==> r is None
            }),
    {
        if sr & imr == 0 {
            return None;
        }
        if sr & SR_NACK != 0 {
            return self.finish_with_error(I2cError::AddressNak);
        }
        if sr & SR_ARBLST != 0 {
            return self.finish_with_error(I2cError::ArbitrationLost);
        }
        if sr & SR_OVRE != 0 {
            return self.finish_with_error(I2cError::Overrun);
        }
        match self.state {
            TwihsState::Writing { len, pos } => self.interrupt_writing(len, pos, sr),
            TwihsState::WriteReading { write_len, write_pos, read_len } => {
                self.interrupt_write_reading(write_len, write_pos, read_len, sr);
                None
            },
            TwihsState::Reading { len, pos } => self.interrupt_reading(len, pos, sr, rhr),
            TwihsState::Idle => None,
        }
    }

    fn finish_with_error(&mut self, error: I2cError) -> (r: Option<Completion>)
        ensures
            final(self).writes@ == old(self).writes@ + reset_writes() + mask_all(),
            final(self).state == TwihsState::Idle,
            final(self).base == old(self).base,
            final(self).addr == old(self).addr,
            final(self).client == old(self).client,
            final(self).buffer == if old(self).client {
                None
            } else {
                old(self).buffer
            },
            old(self).client && old(self).buffer is Some ==> (r matches Some((b, s)) && b@
                == old(self).buffer.unwrap()@ && s == Err::<(), I2cError>(error)),
            !(old(self).client && old(self).buffer is Some) ==> r is None,
    {
        self.writes.push(TwihsWrite::Cr(CR_SWRST));
        self.writes.push(TwihsWrite::Cr(CR_SVDIS | CR_MSEN));
        let ghost mid = self.writes@;
        let r = self.finish(Err(error));
        assert(self.writes@ == mid + mask_all());
        r
    }

    fn interrupt_writing(&mut self, len: usize, pos: usize, sr: u32) -> (r: Option<Completion>)
        requires
            old(self).wf(),
            old(self).state == (TwihsState::Writing { len, pos }),
        ensures
            final(self).wf(),
            final(self).base == old(self).base,
            final(self).addr == old(self).addr,
            final(self).client == old(self).client,
            final(self).state == if sr & SR_TXCOMP != 0 {
                TwihsState::Idle
            } else if sr & SR_TXRDY != 0 && pos < len {
                TwihsState::Writing { len, pos: (pos + 1) as usize }
            } else {
                old(self).state
            },
            final(self).writes@ == old(self).writes@ + writing_writes(
                len,
                pos,
                buffer_view(old(self).buffer),
                sr,
            ),
            sr & SR_TXCOMP != 0 && old(self).client ==> final(self).buffer is None,
            !(sr & SR_TXCOMP != 0 && old(self).client) ==> final(self).buffer == old(self).buffer,
            sr & SR_TXCOMP != 0 && old(self).client ==> (r matches Some((b, s)) && b@
                == buffer_view(old(self).buffer) && s == Ok::<(), I2cError>(())),
            !(sr & SR_TXCOMP != 0 && old(self).client) ==> r is None,
    {
        let ghost buf = buffer_view(self.buffer);
        if sr & SR_TXRDY != 0 {
            if pos < len {
                let b = match &self.buffer {
                    Some(v) => v[pos],
                    None => 0,
                };
                self.writes.push(TwihsWrite::Thr(b as u32));
                self.state = TwihsState::Writing { len, pos: pos + 1 };
            } else {
                self.writes.push(TwihsWrite::Cr(CR_STOP));
                self.writes.push(TwihsWrite::Idr(0xFFFF_FFFF));
                self.writes.push(TwihsWrite::Ier(SR_TXCOMP));
                self.writes.push(TwihsWrite::Ier(SR_NACK | SR_ARBLST | SR_OVRE));
            }
        }
        if sr & SR_TXCOMP != 0 {
            let ghost mid = self.writes@;
            let r = self.finish(Ok(()));
            assert(self.writes@ == old(self).writes@ + writing_writes(len, pos, buf, sr)) by {
                assert(mid == old(self).writes@ + (writing_writes(len, pos, buf, sr).subrange(
                    0,
                    mid.len() - old(self).writes@.len(),
                )));
            }
            r
        } else {
            assert(self.writes@ =~= old(self).writes@ + writing_writes(len, pos, buf, sr));
            None
        }
    }

    fn interrupt_write_reading(&mut self, write_len: usize, write_pos: usize, read_len: usize, sr: u32)
        requires
            old(self).wf(),
            old(self).state == (TwihsState::WriteReading { write_len, write_pos, read_len }),
        ensures
            final(self).wf(),
            final(self).base == old(self).base,
            final(self).addr == old(self).addr,
            final(self).client == old(self).client,
            final(self).buffer == old(self).buffer,
            final(self).state == if sr & SR_TXRDY != 0 {
                if write_pos < write_len {
                    TwihsState::WriteReading {
                        write_len,
                        write_pos: (write_pos + 1) as usize,
                        read_len,
                    }
                } else {
                    TwihsState::Reading { len: read_len, pos: 0 }
                }
            } else {
                old(self).state
            },
            final(self).writes@ == old(self).writes@ + write_reading_writes(
                write_len,
                write_pos,
                read_len,
                buffer_view(old(self).buffer),
                old(self).addr,
                sr,
            ),
    {
        if sr & SR_TXRDY != 0 {
            if write_pos < write_len {
                let b = match &self.buffer {
                    Some(v) => v[write_pos],
                    None => 0,
                };
                self.writes.push(TwihsWrite::Thr(b as u32));
                self.state = TwihsState::WriteReading { write_len, write_pos: write_pos + 1, read_len };
            } else {
                self.writes.push(TwihsWrite::Idr(0xFFFF_FFFF));
                self.writes.push(
                    TwihsWrite::ModifyMmr(MMR_DADR_MASK | MMR_MREAD, mmr_value(self.addr, true, 0)),
                );
                if read_len == 1 {
                    self.writes.push(TwihsWrite::Cr(CR_START | CR_STOP));
                } else {
                    self.writes.push(TwihsWrite::Cr(CR_START));
                }
                self.state = TwihsState::Reading { len: read_len, pos: 0 };
                self.writes.push(TwihsWrite::Ier(SR_RXRDY));
                self.writes.push(TwihsWrite::Ier(SR_NACK | SR_ARBLST | SR_OVRE));
            }
        }
        assert(self.writes@ =~= old(self).writes@ + write_reading_writes(
            write_len,
            write_pos,
            read_len,
            buffer_view(old(self).buffer),
            old(self).addr,
            sr,
        ));
    }

    fn interrupt_reading(&mut self, len: usize, pos: usize, sr: u32, rhr: u32) -> (r: Option<Completion>)
        requires
            old(self).wf(),
            old(self).state == (TwihsState::Reading { len, pos }),
            sr & SR_RXRDY != 0 ==> pos < buffer_view(old(self).buffer).len(),
        ensures
            final(self).wf(),
            final(self).base == old(self).base,
            final(self).addr == old(self).addr,
            final(self).client == old(self).client,
            final(self).state == if sr & SR_TXCOMP != 0 {
                TwihsState::Idle
            } else if sr & SR_RXRDY != 0 {
                TwihsState::Reading { len, pos: (pos + 1) as usize }
            } else {
                old(self).state
            },
            final(self).writes@ == old(self).writes@ + reading_writes(len, pos, sr),
            ({
                let after = if sr & SR_RXRDY != 0 {
                    buffer_view(old(self).buffer).update(pos as int, (rhr & 0xFF) as u8)
                } else {
                    buffer_view(old(self).buffer)
                };
                &&& sr & SR_TXCOMP != 0 && old(self).client ==> final(self).buffer is None
                &&& !(sr & SR_TXCOMP != 0 && old(self).client) ==> final(self).buffer is Some
                    && buffer_view(final(self).buffer) == after
                &&& sr & SR_TXCOMP != 0 && old(self).client ==> (r matches Some((b, s)) && b@
                    == after && s == Ok::<(), I2cError>(()))
                &&& !(sr & SR_TXCOMP != 0 && old(self).client) ==> r is None
            }),
    {
        if sr & SR_RXRDY != 0 {
            #[verifier::truncate]
            let byte: u8 = (rhr & 0xFF) as u8;
            let mut buf = self.buffer.take().unwrap();
            let _n = buf.len();
            buf.set(pos, byte);
            self.buffer = Some(buf);
            let next = pos + 1;
            if next == len {
                self.writes.push(TwihsWrite::Idr(0xFFFF_FFFF));
                self.writes.push(TwihsWrite::Ier(SR_TXCOMP));
                self.writes.push(TwihsWrite::Ier(SR_NACK | SR_ARBLST | SR_OVRE));
            } else if next == len - 1 {
                self.writes.push(TwihsWrite::Cr(CR_STOP));
            }
            self.state = TwihsState::Reading { len, pos: next };
        }
        let ghost mid = self.writes@;
        if sr & SR_TXCOMP != 0 {
            let r = self.finish(Ok(()));
            assert(self.writes@ =~= old(self).writes@ + reading_writes(len, pos, sr));
            r
        } else {
            assert(self.writes@ =~= old(self).writes@ + reading_writes(len, pos, sr));
            None
        }
    }
}

} // verus!
