//! Watchdog timer.
//!
//! The mode register can be written once after a reset; later writes are
//! ignored, so whoever writes it first (normally the bootloader) chooses for
//! everyone. The counter runs at SLCK/128, about 256 Hz, with a 12-bit
//! value: at most about 16 seconds. It is halted while the core is idle and
//! while a debugger holds it, so a spinning core is reset and a waiting one
//! is not.
use vstd::prelude::*;

verus! {

/// Watchdog base address.
pub const WDT_BASE: u32 = 0x400E_1850;

/// Password of the control register.
pub const KEY: u32 = 0xA5;

/// Counter ticks per second: SLCK (32768 Hz) / 128.
pub const TICKS_PER_SECOND: u32 = 256;

/// Longest period the counter can express, in milliseconds.
pub const MAX_PERIOD_MS: u32 = 4095 * 1000 / TICKS_PER_SECOND;

/// Restart bit of the control register.
pub const CR_WDRSTT: u32 = 1 << 0;

/// Mode register bits.
pub const MR_WDRSTEN: u32 = 1 << 13;
pub const MR_WDDIS: u32 = 1 << 15;
pub const MR_WDDBGHLT: u32 = 1 << 28;
pub const MR_WDIDLEHLT: u32 = 1 << 29;

/// A register write.
#[derive(Clone, Copy, Debug, PartialEq, Eq, Structural)]
pub enum WdtWrite {
    Cr(u32),
    Mr(u32),
}

/// Counter ticks for a period of `period_ms`, clamped to what the counter
/// can express and never zero.
pub open spec fn spec_ticks(period_ms: u32) -> u32 {
    let p = if period_ms < MAX_PERIOD_MS {
        period_ms
    } else {
        MAX_PERIOD_MS
    };
    let t = (p * TICKS_PER_SECOND / 1000) as u32;
    if t > 1 {
        t
    } else {
        1
    }
}

/// The mode register for `ticks`: that period, no forbidden window, reset on
/// expiry, halted in debug and idle.
pub open spec fn spec_start_mr(ticks: u32) -> u32 {
    (ticks & 0xFFF) | ((ticks & 0xFFF) << 16u32) | MR_WDRSTEN | MR_WDDBGHLT | MR_WDIDLEHLT
}

/// The control register value that restarts the counter.
pub open spec fn spec_pet() -> u32 {
    (KEY << 24u32) | CR_WDRSTT
}

/// The watchdog.
pub struct Wdt {}

impl Wdt {
    pub fn new() -> (r: Wdt) {
        Wdt {  }
    }

    /// Counter ticks for a period of `period_ms`.
    pub fn ticks(period_ms: u32) -> (r: u32)
        ensures
            r == spec_ticks(period_ms),
            1 <= r <= 4095,
    {
        let p = if period_ms < MAX_PERIOD_MS {
            period_ms
        } else {
            MAX_PERIOD_MS
        };
        let t = p * TICKS_PER_SECOND / 1000;
        if t > 1 {
            t
        } else {
            1
        }
    }

    /// Arm the watchdog with a period of `period_ms` (clamped), never
    /// resetting while idle or halted in a debugger. Writes the mode
    /// register, so it takes effect only as its first write after a reset.
    pub fn start(&self, period_ms: u32) -> (r: WdtWrite)
        ensures
            r == WdtWrite::Mr(spec_start_mr(spec_ticks(period_ms))),
    {
        let ticks = Wdt::ticks(period_ms);
        WdtWrite::Mr((ticks & 0xFFF) | ((ticks & 0xFFF) << 16u32) | MR_WDRSTEN | MR_WDDBGHLT | MR_WDIDLEHLT)
    }

    /// Disable the watchdog; also a write to the mode register.
    pub fn disable(&self) -> (r: WdtWrite)
        ensures
            r == WdtWrite::Mr(MR_WDDIS),
    {
        WdtWrite::Mr(MR_WDDIS)
    }

    /// Restart the counter; allowed at any time.
    pub fn pet(&self) -> (r: WdtWrite)
        ensures
            r == WdtWrite::Cr(spec_pet()),
    {
        WdtWrite::Cr((KEY << 24u32) | CR_WDRSTT)
    }

    /// Start of kernel use: the bootloader already chose the period, so only
    /// restart the counter.
    pub fn setup(&self) -> (r: WdtWrite)
        ensures
            r == WdtWrite::Cr(spec_pet()),
    {
        self.pet()
    }

    pub fn tickle(&self) -> (r: WdtWrite)
        ensures
            r == WdtWrite::Cr(spec_pet()),
    {
        self.pet()
    }

    /// Going to sleep: the hardware halts the counter while idle, so there
    /// is nothing to write.
    pub fn suspend(&self) -> (r: Option<WdtWrite>)
        ensures
            r is None,
    {
        None
    }

    pub fn resume(&self) -> (r: WdtWrite)
        ensures
            r == WdtWrite::Cr(spec_pet()),
    {
        self.pet()
    }
}

/// Whatever period is asked for, the watchdog is armed with a non-zero
/// period that fits the 12-bit counter, no forbidden window, reset on
/// expiry, and the counter halted while idle and in debug.
pub proof fn start_is_always_sane(period_ms: u32)
    ensures
        1 <= spec_ticks(period_ms) <= 4095,
        spec_start_mr(spec_ticks(period_ms)) & 0xFFF == spec_ticks(period_ms),
        (spec_start_mr(spec_ticks(period_ms)) >> 16u32) & 0xFFF == spec_ticks(period_ms),
        spec_start_mr(spec_ticks(period_ms)) & MR_WDDIS == 0,
        spec_start_mr(spec_ticks(period_ms)) & MR_WDIDLEHLT != 0,
        spec_start_mr(spec_ticks(period_ms)) & MR_WDDBGHLT != 0,
        spec_start_mr(spec_ticks(period_ms)) & MR_WDRSTEN != 0,
{
    let t = spec_ticks(period_ms);
    assert(1 <= t <= 4095);
    assert(spec_start_mr(t) & 0xFFF == t && (spec_start_mr(t) >> 16u32) & 0xFFF == t
        && spec_start_mr(t) & MR_WDDIS == 0 && spec_start_mr(t) & MR_WDIDLEHLT != 0
        && spec_start_mr(t) & MR_WDDBGHLT != 0 && spec_start_mr(t) & MR_WDRSTEN != 0) by (bit_vector)
        requires
            1 <= t <= 4095,
    ;
}

} // verus!
