//! XDMAC, the extended DMA controller of the SAM V71, as used for
//! peripheral-to-memory byte transfers (USART1 receive).
//!
//! Register accesses are handed to the board as a list of addressed reads
//! and writes; the driver computes the addresses and values and keeps the
//! byte count of the receive transfer, from which it derives how much has
//! arrived.
use vstd::prelude::*;

verus! {

/// XDMAC base address.
pub const XDMAC_BASE: usize = 0x4007_8000;

/// XDMAC peripheral identifier, for the clock controller.
pub const XDMAC_PID: u32 = 58;

/// Global interrupt status.
pub const GIS: usize = 0x18;
/// Global channel enable.
pub const GE: usize = 0x1C;
/// Global channel disable.
pub const GD: usize = 0x20;
/// Global channel status.
pub const GS: usize = 0x24;

/// Channel interrupt status.
pub const CIS: usize = 0x0C;
/// Channel source address.
pub const CSA: usize = 0x10;
/// Channel destination address.
pub const CDA: usize = 0x14;
/// Channel next descriptor address.
pub const CNDA: usize = 0x18;
/// Channel next descriptor control.
pub const CNDC: usize = 0x1C;
/// Channel microblock control (bytes left).
pub const CUBC: usize = 0x20;
/// Channel block control.
pub const CBC: usize = 0x24;
/// Channel configuration.
pub const CC: usize = 0x28;

/// End-of-block bit of the channel interrupt status.
pub const BIS: u32 = 1;

/// Channel used for USART1 receive.
pub const USART1_RX_CHANNEL: usize = 0;

/// Hardware handshake identifier of USART1 receive.
pub const USART1_RX_PERID: u32 = 10;

/// Mask of the microblock length field.
pub const UBLEN_MASK: u32 = 0x00FF_FFFF;

/// A register access for the board to perform.
#[derive(Clone, Copy, Debug, PartialEq, Eq, Structural)]
pub enum XdmacAccess {
    Write(usize, u32),
    /// A read done for its side effect (clearing a status).
    Read(usize),
}

/// Address of a global register.
pub fn global_reg(offset: usize) -> (r: usize)
    requires
        offset < 0x50,
    ensures
        r == XDMAC_BASE + offset,
{
    XDMAC_BASE + offset
}

/// Address of a register of channel `ch`: channels start at 0x50 and
/// take 0x40 bytes each.
pub open spec fn spec_channel_reg(ch: usize, offset: usize) -> int {
    XDMAC_BASE + 0x50 + ch * 0x40 + offset
}

/// Address of a register of channel `ch`.
pub fn channel_reg(ch: usize, offset: usize) -> (r: usize)
    requires
        ch < 24,
        offset < 0x40,
    ensures
        r == spec_channel_reg(ch, offset),
{
    XDMAC_BASE + 0x50 + ch * 0x40 + offset
}

/// Channel configuration of a peripheral-to-memory byte transfer:
/// peripheral synchronised, byte wide, source on the peripheral bus and
/// fixed, destination on the system bus and incremented, handshake `perid`.
pub open spec fn spec_cc(perid: u32) -> u32 {
    (1u32 << 0u32) | (1u32 << 13u32) | (1u32 << 18u32) | (perid << 24u32)
}

/// The accesses that set channel `ch` up to copy `count` bytes from the
/// peripheral register at `src` to memory at `dst`.
pub open spec fn spec_configure(ch: usize, perid: u32, src: u32, dst: u32, count: u32) -> Seq<
    XdmacAccess,
> {
    seq![
        XdmacAccess::Write((XDMAC_BASE + GD) as usize, 1u32 << ch as u32),
        XdmacAccess::Read(spec_channel_reg(ch, CIS) as usize),
        XdmacAccess::Write(spec_channel_reg(ch, CSA) as usize, src),
        XdmacAccess::Write(spec_channel_reg(ch, CDA) as usize, dst),
        XdmacAccess::Write(spec_channel_reg(ch, CNDA) as usize, 0),
        XdmacAccess::Write(spec_channel_reg(ch, CNDC) as usize, 0),
        XdmacAccess::Write(spec_channel_reg(ch, CUBC) as usize, count),
        XdmacAccess::Write(spec_channel_reg(ch, CBC) as usize, 0),
        XdmacAccess::Write(spec_channel_reg(ch, CC) as usize, spec_cc(perid)),
    ]
}

/// The controller, with the length of the USART1 receive transfer.
pub struct Xdmac {
    usart1_rx_original_count: u32,
}

impl Xdmac {
    /// Length the USART1 receive transfer was started with.
    pub closed spec fn rx_count(&self) -> u32 {
        self.usart1_rx_original_count
    }

    /// A controller with no transfer set up.
    pub fn new() -> (r: Xdmac)
        ensures
            r.rx_count() == 0,
    {
        Xdmac { usart1_rx_original_count: 0 }
    }

    /// Length the USART1 receive transfer was started with.
    pub fn rx_original_count(&self) -> (r: u32)
        ensures
            r == self.rx_count(),
    {
        self.usart1_rx_original_count
    }

    /// Set channel `channel` up to copy `count` bytes from the peripheral
    /// register at `src_addr` to memory at `dst_addr`, with handshake
    /// `perid`: disable the channel, clear its status, program addresses,
    /// length and configuration. A transfer on the USART1 receive channel
    /// records its length.
    pub fn configure_periph_to_mem(
        &mut self,
        channel: usize,
        perid: u32,
        src_addr: u32,
        dst_addr: u32,
        count: u32,
    ) -> (r: Vec<XdmacAccess>)
        requires
            channel < 24,
        ensures
            r@ == spec_configure(channel, perid, src_addr, dst_addr, count),
            final(self).rx_count() == if channel == USART1_RX_CHANNEL {
                count
            } else {
                old(self).rx_count()
            },
    {
        let mut r: Vec<XdmacAccess> = Vec::new();
        r.push(XdmacAccess::Write(global_reg(GD), 1u32 << channel as u32));
        r.push(XdmacAccess::Read(channel_reg(channel, CIS)));
        r.push(XdmacAccess::Write(channel_reg(channel, CSA), src_addr));
        r.push(XdmacAccess::Write(channel_reg(channel, CDA), dst_addr));
        r.push(XdmacAccess::Write(channel_reg(channel, CNDA), 0));
        r.push(XdmacAccess::Write(channel_reg(channel, CNDC), 0));
        r.push(XdmacAccess::Write(channel_reg(channel, CUBC), count));
        r.push(XdmacAccess::Write(channel_reg(channel, CBC), 0));
        let cc: u32 = (1u32 << 0u32) | (1u32 << 13u32) | (1u32 << 18u32) | (perid << 24u32);
        r.push(XdmacAccess::Write(channel_reg(channel, CC), cc));
        if channel == USART1_RX_CHANNEL {
            self.usart1_rx_original_count = count;
        }
        r
    }

    /// The access that enables channel `channel`.
    pub fn enable_channel(&self, channel: usize) -> (r: XdmacAccess)
        requires
            channel < 24,
        ensures
            r == XdmacAccess::Write((XDMAC_BASE + GE) as usize, 1u32 << channel as u32),
    {
        XdmacAccess::Write(global_reg(GE), 1u32 << channel as u32)
    }

    /// The access that disables channel `channel`.
    pub fn disable_channel(&self, channel: usize) -> (r: XdmacAccess)
        requires
            channel < 24,
        ensures
            r == XdmacAccess::Write((XDMAC_BASE + GD) as usize, 1u32 << channel as u32),
    {
        XdmacAccess::Write(global_reg(GD), 1u32 << channel as u32)
    }

    /// Whether the global status `gs` shows channel `channel` enabled.
    pub fn is_channel_enabled(&self, channel: usize, gs: u32) -> (r: bool)
        requires
            channel < 24,
        ensures
            r == (gs & (1u32 << channel as u32) != 0),
    {
        gs & (1u32 << channel as u32) != 0
    }

    /// Bytes left in a transfer, from the channel's microblock control
    /// register `cubc`.
    pub fn remaining_count(&self, cubc: u32) -> (r: u32)
        ensures
            r == cubc & UBLEN_MASK,
            r <= UBLEN_MASK,
    {
        let r = cubc & UBLEN_MASK;
        assert(cubc & UBLEN_MASK <= UBLEN_MASK) by (bit_vector);
        r
    }

    /// Bytes received so far on the USART1 receive channel: the length it
    /// was started with less what is left, read from `cubc`. The hardware
    /// counts down from the length, so no more can be left than it started
    /// with.
    pub fn usart1_rx_transferred(&self, cubc: u32) -> (r: u32)
        requires
            cubc & UBLEN_MASK <= self.rx_count(),
        ensures
            r == self.rx_count() - (cubc & UBLEN_MASK),
    {
        let remaining = self.remaining_count(cubc);
        self.usart1_rx_original_count - remaining
    }

    /// Whether the global interrupt status `gis` calls for reading the
    /// USART1 receive channel's status.
    pub fn needs_channel_status(&self, gis: u32) -> (r: bool)
        ensures
            r == (gis & 1 != 0),
    {
        assert(1u32 << 0u32 == 1) by (bit_vector);
        gis & (1u32 << USART1_RX_CHANNEL as u32) != 0
    }

    /// The channels that finished a block, as a mask: the USART1 receive
    /// channel when `gis` flags it and its status `cis` shows end of block.
    pub fn handle_interrupt(&self, gis: u32, cis: u32) -> (r: u32)
        ensures
            r == if gis & 1 != 0 && cis & BIS != 0 {
                1u32
            } else {
                0u32
            },
    {
        let mut completed: u32 = 0;
        if gis & (1u32 << USART1_RX_CHANNEL as u32) != 0 {
            if cis & BIS != 0 {
                completed = completed | (1u32 << USART1_RX_CHANNEL as u32);
            }
        }
        assert(1u32 << 0u32 == 1) by (bit_vector);
        assert(0u32 | 1u32 == 1) by (bit_vector);
        completed
    }
}

} // verus!
