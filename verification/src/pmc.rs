//! Power management controller: the clock tree.
//!
//! The board runs the core at 300 MHz from PLLA and the peripheral bus (MCK)
//! at half that, 150 MHz. PLLA is fed by the internal RC oscillator, whose
//! frequency (4, 8 or 12 MHz) survives a software reset, so the multiplier
//! is chosen from what is running. Registers are write-protected; every
//! operation lifts the protection and puts it back.
//!
//! Operations come out as lists of register accesses and waits for the
//! board to perform in order.
use vstd::prelude::*;

verus! {

/// PMC base address.
pub const PMC_BASE: u32 = 0x400E_0600;

/// Write-protection key, ASCII "PMC".
pub const WP_KEY: u32 = 0x50_4D_43;

/// Status bits.
pub const SR_LOCKA: u32 = 1 << 1;
pub const SR_MCKRDY: u32 = 1 << 3;

/// Master clock register fields.
pub const MCKR_CSS_MASK: u32 = 3;
pub const MCKR_CSS_MAIN: u32 = 1;
pub const MCKR_CSS_PLLA: u32 = 2;
pub const MCKR_MDIV_MASK: u32 = 3 << 8;
pub const MCKR_MDIV_DIV2: u32 = 1 << 8;

/// A register access or a wait.
#[derive(Clone, Copy, Debug, PartialEq, Eq, Structural)]
pub enum PmcOp {
    /// Write-protection mode register.
    Wpmr(u32),
    /// Read-modify-write of the master clock register: clear, then set.
    ModifyMckr(u32, u32),
    /// PLLA register.
    Pllar(u32),
    /// Spin until the status register has these bits set.
    WaitSr(u32),
    /// Peripheral clock enable, bank 0 or 1.
    Pcer(u32, u32),
    /// Peripheral clock disable, bank 0 or 1.
    Pcdr(u32, u32),
    /// Programmable clock register `n`.
    Pck(usize, u32),
    /// System clock enable.
    Scer(u32),
}

/// Lift write protection.
pub open spec fn unlock() -> PmcOp {
    PmcOp::Wpmr(WP_KEY << 8u32)
}

/// Restore write protection.
pub open spec fn lock() -> PmcOp {
    PmcOp::Wpmr((WP_KEY << 8u32) | 1)
}

/// Frequency of the internal RC oscillator, in MHz, for its frequency
/// selection field: 4, 8 or 12 MHz (other values run at 12).
pub open spec fn rc_mhz(moscrcf: u32) -> nat {
    if moscrcf == 0 {
        4
    } else if moscrcf == 1 {
        8
    } else {
        12
    }
}

/// The PLLA multiplier field (the multiplier less one) for an RC
/// frequency selection: 4 MHz times 75, 8 MHz halved times 75, 12 MHz
/// times 25, each 300 MHz.
pub open spec fn spec_mula(moscrcf: u32) -> u32 {
    if moscrcf == 0 {
        74
    } else if moscrcf == 1 {
        74
    } else {
        24
    }
}

/// The PLLA input divider for an RC frequency selection: 2 for 8 MHz,
/// otherwise 1.
pub open spec fn spec_diva(moscrcf: u32) -> u32 {
    if moscrcf == 1 {
        2
    } else {
        1
    }
}

/// The PLLA register: multiplier `mula + 1`, divider `diva`, maximum lock
/// count.
pub open spec fn spec_pllar(mula: u32, diva: u32) -> u32 {
    (1u32 << 29u32) | ((mula & 0x7FF) << 16u32) | (0x3Fu32 << 8u32) | (diva & 0xFF)
}

/// The clock set-up, given the main oscillator register `mor`: park MCK on
/// the main clock, program PLLA for 300 MHz and wait for lock, halve
/// MCK before switching it to PLLA (so that it never runs at 300 MHz), and
/// wait for MCK after each change.
pub open spec fn spec_setup_clocks(mor: u32) -> Seq<PmcOp> {
    seq![
        unlock(),
        PmcOp::ModifyMckr(MCKR_CSS_MASK, MCKR_CSS_MAIN),
        PmcOp::WaitSr(SR_MCKRDY),
        PmcOp::Pllar(spec_pllar(spec_mula((mor >> 4u32) & 7), spec_diva((mor >> 4u32) & 7))),
        PmcOp::WaitSr(SR_LOCKA),
        PmcOp::ModifyMckr(MCKR_MDIV_MASK, MCKR_MDIV_DIV2),
        PmcOp::WaitSr(SR_MCKRDY),
        PmcOp::ModifyMckr(MCKR_CSS_MASK, MCKR_CSS_PLLA),
        PmcOp::WaitSr(SR_MCKRDY),
        lock(),
    ]
}

/// Which peripheral clock bank and bit a peripheral identifier uses: bank 0
/// for 0 to 31, bank 1 for 32 to 63; larger identifiers have none.
pub open spec fn pid_bank(pid: u32) -> u32 {
    if pid < 32 {
        0
    } else {
        1
    }
}

pub open spec fn pid_bit(pid: u32) -> u32 {
    if pid < 32 {
        1u32 << pid
    } else {
        1u32 << (pid - 32) as u32
    }
}

/// The programmable clock register value: source and prescaler.
pub open spec fn spec_pck(css: u32, pres: u32) -> u32 {
    (css & 7) | ((pres & 0xFF) << 4u32)
}

/// The power management controller.
pub struct Pmc {}

impl Pmc {
    pub fn new() -> (r: Pmc) {
        Pmc {  }
    }

    /// Set the clocks up: core at 300 MHz, MCK at half that. `mor` is the
    /// main oscillator register as found.
    pub fn setup_clocks(&self, mor: u32) -> (r: Vec<PmcOp>)
        ensures
            r@ == spec_setup_clocks(mor),
    {
        let mut r: Vec<PmcOp> = Vec::new();
        r.push(PmcOp::Wpmr(WP_KEY << 8u32));
        r.push(PmcOp::ModifyMckr(MCKR_CSS_MASK, MCKR_CSS_MAIN));
        r.push(PmcOp::WaitSr(SR_MCKRDY));
        let moscrcf = (mor >> 4u32) & 7;
        let mula: u32 = if moscrcf == 0 {
            74
        } else if moscrcf == 1 {
            74
        } else {
            24
        };
        let diva: u32 = if moscrcf == 1 {
            2
        } else {
            1
        };
        r.push(
            PmcOp::Pllar((1u32 << 29u32) | ((mula & 0x7FF) << 16u32) | (0x3Fu32 << 8u32) | (diva
                & 0xFF)),
        );
        r.push(PmcOp::WaitSr(SR_LOCKA));
        r.push(PmcOp::ModifyMckr(MCKR_MDIV_MASK, MCKR_MDIV_DIV2));
        r.push(PmcOp::WaitSr(SR_MCKRDY));
        r.push(PmcOp::ModifyMckr(MCKR_CSS_MASK, MCKR_CSS_PLLA));
        r.push(PmcOp::WaitSr(SR_MCKRDY));
        r.push(PmcOp::Wpmr((WP_KEY << 8u32) | 1));
        assert(r@ =~= spec_setup_clocks(mor));
        r
    }

    /// Turn the clock of peripheral `pid` on (identifiers past 63 have
    /// none, and only the protection is touched).
    pub fn enable_peripheral_clock(&self, pid: u32) -> (r: Vec<PmcOp>)
        ensures
            r@ == if pid < 64 {
                seq![unlock(), PmcOp::Pcer(pid_bank(pid), pid_bit(pid)), lock()]
            } else {
                seq![unlock(), lock()]
            },
    {
        let mut r: Vec<PmcOp> = Vec::new();
        r.push(PmcOp::Wpmr(WP_KEY << 8u32));
        if pid < 32 {
            r.push(PmcOp::Pcer(0, 1u32 << pid));
        } else if pid < 64 {
            r.push(PmcOp::Pcer(1, 1u32 << (pid - 32)));
        }
        r.push(PmcOp::Wpmr((WP_KEY << 8u32) | 1));
        assert(r@ =~= if pid < 64 {
            seq![unlock(), PmcOp::Pcer(pid_bank(pid), pid_bit(pid)), lock()]
        } else {
            seq![unlock(), lock()]
        });
        r
    }

    /// Turn the clock of peripheral `pid` off.
    pub fn disable_peripheral_clock(&self, pid: u32) -> (r: Vec<PmcOp>)
        ensures
            r@ == if pid < 64 {
                seq![unlock(), PmcOp::Pcdr(pid_bank(pid), pid_bit(pid)), lock()]
            } else {
                seq![unlock(), lock()]
            },
    {
        let mut r: Vec<PmcOp> = Vec::new();
        r.push(PmcOp::Wpmr(WP_KEY << 8u32));
        if pid < 32 {
            r.push(PmcOp::Pcdr(0, 1u32 << pid));
        } else if pid < 64 {
            r.push(PmcOp::Pcdr(1, 1u32 << (pid - 32)));
        }
        r.push(PmcOp::Wpmr((WP_KEY << 8u32) | 1));
        assert(r@ =~= if pid < 64 {
            seq![unlock(), PmcOp::Pcdr(pid_bank(pid), pid_bit(pid)), lock()]
        } else {
            seq![unlock(), lock()]
        });
        r
    }

    /// Whether the clock of peripheral `pid` is on, from the status
    /// registers `pcsr0` and `pcsr1`.
    pub fn is_peripheral_clock_enabled(&self, pid: u32, pcsr0: u32, pcsr1: u32) -> (r: bool)
        ensures
            r == (pid < 64 && (if pid < 32 {
                pcsr0
            } else {
                pcsr1
            }) & pid_bit(pid) != 0),
    {
        if pid < 32 {
            pcsr0 & (1u32 << pid) != 0
        } else if pid < 64 {
            pcsr1 & (1u32 << (pid - 32)) != 0
        } else {
            false
        }
    }

    /// Configure programmable clock `index` (0 to 7) with source `css` and
    /// prescaler `pres` (output = source / (pres + 1)), enable it and wait
    /// until it is ready. Other indices are ignored.
    pub fn configure_pck(&self, index: usize, css: u32, pres: u32) -> (r: Vec<PmcOp>)
        ensures
            index > 7 ==> r@.len() == 0,
            index <= 7 ==> r@ == seq![
                unlock(),
                PmcOp::Pck(index, spec_pck(css, pres)),
                PmcOp::Scer(1u32 << (index + 8) as u32),
                PmcOp::WaitSr(1u32 << (index + 8) as u32),
                lock(),
            ],
    {
        let mut r: Vec<PmcOp> = Vec::new();
        if index > 7 {
            return r;
        }
        r.push(PmcOp::Wpmr(WP_KEY << 8u32));
        r.push(PmcOp::Pck(index, (css & 7) | ((pres & 0xFF) << 4u32)));
        let bit: u32 = 1u32 << (index + 8) as u32;
        r.push(PmcOp::Scer(bit));
        r.push(PmcOp::WaitSr(bit));
        r.push(PmcOp::Wpmr((WP_KEY << 8u32) | 1));
        assert(r@ =~= seq![
            unlock(),
            PmcOp::Pck(index, spec_pck(css, pres)),
            PmcOp::Scer(1u32 << (index + 8) as u32),
            PmcOp::WaitSr(1u32 << (index + 8) as u32),
            lock(),
        ]);
        r
    }
}

/// The clock set-up: whatever RC frequency is running, PLLA comes out at
/// exactly 300 MHz and MCK at 150 MHz; MCK is halved before it is switched to PLLA, so it never
/// exceeds 150 MHz; every MCK change is followed by a wait for it; and
/// write protection is back on at the end.
pub proof fn setup_clocks_is_safe(mor: u32)
    ensures
        ({
            let f = rc_mhz((mor >> 4u32) & 7);
            let m = spec_mula((mor >> 4u32) & 7) + 1;
            let d = spec_diva((mor >> 4u32) & 7);
            &&& f * m == 300 * d
            &&& f * m == 2 * 150 * d
        }),
        spec_setup_clocks(mor)[3] == PmcOp::Pllar(
            spec_pllar(spec_mula((mor >> 4u32) & 7), spec_diva((mor >> 4u32) & 7)),
        ),
        spec_setup_clocks(mor)[5] == PmcOp::ModifyMckr(MCKR_MDIV_MASK, MCKR_MDIV_DIV2),
        spec_setup_clocks(mor)[7] == PmcOp::ModifyMckr(MCKR_CSS_MASK, MCKR_CSS_PLLA),
        forall|i: int|
            0 <= i < spec_setup_clocks(mor).len() && #[trigger] spec_setup_clocks(mor)[i] is ModifyMckr
                ==> i + 1 < spec_setup_clocks(mor).len() && spec_setup_clocks(mor)[i + 1] == PmcOp::WaitSr(
                SR_MCKRDY,
            ),
        spec_setup_clocks(mor).first() == unlock(),
        spec_setup_clocks(mor).last() == lock(),
{
    let s = spec_setup_clocks(mor);
    assert forall|i: int| 0 <= i < s.len() && #[trigger] s[i] is ModifyMckr implies i + 1 < s.len()
        && s[i + 1] == PmcOp::WaitSr(SR_MCKRDY) by {
        assert(i == 1 || i == 5 || i == 7);
    }
}

/// A peripheral's clock is enabled, disabled and tested at the same bank
/// and bit, and no two peripherals share one.
pub proof fn peripheral_clock_bits(a: u32, b: u32)
    requires
        a < 64,
        b < 64,
    ensures
        a != b ==> pid_bank(a) != pid_bank(b) || pid_bit(a) != pid_bit(b),
        pid_bit(a) != 0,
{
    assert((forall|x: u32, y: u32| x < 32 && y < 32 && x != y ==> (1u32 << x) != (1u32 << y))
        && (forall|x: u32| x < 32 ==> (1u32 << x) != 0)) by (bit_vector);
    if a >= 32 {
        assert(((a - 32) as u32) < 32);
    }
    if b >= 32 {
        assert(((b - 32) as u32) < 32);
    }
}

} // verus!
