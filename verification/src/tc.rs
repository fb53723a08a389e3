//! Timer counter 0, channel 0: the kernel's alarm.
//!
//! The 16-bit counter runs free on the 32 kHz slow clock; counting its
//! overflows in software extends it to 32 bits. An alarm whose target is in
//! the current 64K-tick window loads the compare register at once; one
//! further off is loaded by the overflow that brings the counter's high
//! half to the target's.
use vstd::prelude::*;
use crate::error::ErrorCode;

verus! {

/// Channel base address.
pub const TC0_CH0_BASE: u32 = 0x4000_C000;

/// Peripheral identifier, for the clock controller.
pub const TC0_CH0_PID: u32 = 23;

/// Channel control bits.
pub const CCR_CLKEN: u32 = 1 << 0;
pub const CCR_CLKDIS: u32 = 1 << 1;
pub const CCR_SWTRG: u32 = 1 << 2;

/// Mode register for waveform mode, counting up freely, on the slow clock.
pub const CMR_WAVE_UP_SLCK: u32 = (1 << 15) | (0 << 13) | 4;

/// Status and interrupt bits: counter overflow, compare match.
pub const IR_COVFS: u32 = 1 << 0;
pub const IR_CPCS: u32 = 1 << 4;

/// Smallest alarm interval: four ticks of about 30 us.
pub const MINIMUM_DT: u32 = 4;

/// A register write.
#[derive(Clone, Copy, Debug, PartialEq, Eq, Structural)]
pub enum TcWrite {
    Ccr(u32),
    Cmr(u32),
    Rc(u32),
    Ier(u32),
    Idr(u32),
}

/// The driver.
pub struct Tc {
    /// Overflows counted: the high half of the 32-bit count.
    pub overflow: u32,
    pub alarm_target: u32,
    pub armed: bool,
    /// Whether an alarm client is registered.
    pub client: bool,
    pub running: bool,
    /// Register writes for the board, oldest first.
    pub writes: Vec<TcWrite>,
}

/// The 32-bit count: overflows in the high half, the counter value `cv` in
/// the low half.
pub open spec fn spec_now(overflow: u32, cv: u32) -> u32 {
    (overflow << 16u32) | (cv & 0xFFFF)
}

/// The writes that load the compare register with the low half of
/// `target` and enable the compare interrupt.
pub open spec fn load_compare(target: u32) -> Seq<TcWrite> {
    seq![TcWrite::Rc(target & 0xFFFF), TcWrite::Ier(IR_CPCS)]
}

/// Whether the alarm and the clients are unchanged.
pub open spec fn same_alarm(n: Tc, o: Tc) -> bool {
    &&& n.alarm_target == o.alarm_target
    &&& n.armed == o.armed
    &&& n.client == o.client
}

impl Tc {
    /// A stopped timer with no alarm.
    pub fn new() -> (r: Tc)
        ensures
            r.overflow == 0,
            r.alarm_target == 0,
            !r.armed,
            !r.client,
            !r.running,
            r.writes@.len() == 0,
    {
        Tc { overflow: 0, alarm_target: 0, armed: false, client: false, running: false, writes: Vec::new() }
    }

    pub fn set_alarm_client(&mut self)
        ensures
            final(self).client,
            final(self).overflow == old(self).overflow,
            final(self).alarm_target == old(self).alarm_target,
            final(self).armed == old(self).armed,
            final(self).running == old(self).running,
            final(self).writes@ == old(self).writes@,
    {
        self.client = true;
    }

    /// The current 32-bit count, given the counter value `cv`.
    pub fn now(&self, cv: u32) -> (r: u32)
        ensures
            r == spec_now(self.overflow, cv),
    {
        (self.overflow << 16u32) | (cv & 0xFFFF)
    }

    /// Handle an interrupt with status `sr` (reading it cleared it). An
    /// overflow advances the high half and, when an armed alarm's target is
    /// now in the window, loads the compare register. A compare match of an
    /// armed alarm disarms it and fires it; the result says whether the
    /// client is to be called.
    pub fn handle_interrupt(&mut self, sr: u32) -> (fired: bool)
        ensures
            final(self).running == old(self).running,
            final(self).alarm_target == old(self).alarm_target,
            final(self).client == old(self).client,
            final(self).overflow == if sr & IR_COVFS != 0 {
                old(self).overflow.wrapping_add(1)
            } else {
                old(self).overflow
            },
            ({
                let reload = sr & IR_COVFS != 0 && old(self).armed && final(self).overflow
                    == old(self).alarm_target >> 16u32;
                let fire = sr & IR_CPCS != 0 && old(self).armed;
                &&& final(self).writes@ == old(self).writes@ + (if reload {
                    load_compare(old(self).alarm_target)
                } else {
                    Seq::empty()
                }) + (if fire {
                    seq![TcWrite::Idr(IR_CPCS)]
                } else {
                    Seq::empty()
                })
                &&& final(self).armed == (old(self).armed && !fire)
                &&& fired == (fire && old(self).client)
            }),
    {
        let ghost w0 = self.writes@;
        if sr & IR_COVFS != 0 {
            let new_high = self.overflow.wrapping_add(1);
            self.overflow = new_high;
            if self.armed {
                let target = self.alarm_target;
                if new_high == target >> 16u32 {
                    self.writes.push(TcWrite::Rc(target & 0xFFFF));
                    self.writes.push(TcWrite::Ier(IR_CPCS));
                }
            }
        }
        let ghost w1 = self.writes@;
        let mut fired = false;
        if sr & IR_CPCS != 0 && self.armed {
            self.writes.push(TcWrite::Idr(IR_CPCS));
            self.armed = false;
            fired = self.client;
        }
        assert(self.writes@ =~= w0 + w1.subrange(w0.len() as int, w1.len() as int) + self.writes@.subrange(
            w1.len() as int,
            self.writes@.len() as int,
        ));
        fired
    }

    /// Start counting (nothing to do when running): waveform mode, free
    /// running on the slow clock, overflow interrupt on, clock enabled and
    /// triggered.
    pub fn start(&mut self) -> (r: Result<(), ErrorCode>)
        ensures
            r is Ok,
            final(self).running,
            final(self).overflow == old(self).overflow,
            same_alarm(*final(self), *old(self)),
            old(self).running ==> final(self).writes@ == old(self).writes@,
            !old(self).running ==> final(self).writes@ == old(self).writes@ + seq![
                TcWrite::Cmr(CMR_WAVE_UP_SLCK),
                TcWrite::Ier(IR_COVFS),
                TcWrite::Ccr(CCR_CLKEN | CCR_SWTRG),
            ],
    {
        if self.running {
            return Ok(());
        }
        self.writes.push(TcWrite::Cmr(CMR_WAVE_UP_SLCK));
        self.writes.push(TcWrite::Ier(IR_COVFS));
        self.writes.push(TcWrite::Ccr(CCR_CLKEN | CCR_SWTRG));
        self.running = true;
        Ok(())
    }

    /// Stop counting: both interrupts off, clock disabled.
    pub fn stop(&mut self) -> (r: Result<(), ErrorCode>)
        ensures
            r is Ok,
            !final(self).running,
            final(self).overflow == old(self).overflow,
            same_alarm(*final(self), *old(self)),
            final(self).writes@ == old(self).writes@ + seq![
                TcWrite::Idr(IR_COVFS | IR_CPCS),
                TcWrite::Ccr(CCR_CLKDIS),
            ],
    {
        self.writes.push(TcWrite::Idr(IR_COVFS | IR_CPCS));
        self.writes.push(TcWrite::Ccr(CCR_CLKDIS));
        self.running = false;
        Ok(())
    }

    /// Restart the count from zero.
    pub fn reset(&mut self) -> (r: Result<(), ErrorCode>)
        ensures
            r is Ok,
            final(self).overflow == 0,
            final(self).running == old(self).running,
            same_alarm(*final(self), *old(self)),
            final(self).writes@ == old(self).writes@.push(TcWrite::Ccr(CCR_SWTRG)),
    {
        self.overflow = 0;
        self.writes.push(TcWrite::Ccr(CCR_SWTRG));
        Ok(())
    }

    pub fn is_running(&self) -> (r: bool)
        ensures
            r == self.running,
    {
        self.running
    }

    /// Arm the alarm for `reference + dt` (wrapping), given the counter
    /// value `cv`. A target in the current window loads the compare
    /// register now; otherwise the overflow that reaches it does.
    pub fn set_alarm(&mut self, reference: u32, dt: u32, cv: u32)
        ensures
            final(self).alarm_target == reference.wrapping_add(dt),
            final(self).armed,
            final(self).overflow == old(self).overflow,
            final(self).running == old(self).running,
            final(self).client == old(self).client,
            final(self).writes@ == old(self).writes@ + if spec_now(old(self).overflow, cv) >> 16u32
                == reference.wrapping_add(dt) >> 16u32 {
                load_compare(reference.wrapping_add(dt))
            } else {
                Seq::empty()
            },
    {
        let target = reference.wrapping_add(dt);
        self.alarm_target = target;
        self.armed = true;
        let now = self.now(cv);
        if now >> 16u32 == target >> 16u32 {
            self.writes.push(TcWrite::Rc(target & 0xFFFF));
            self.writes.push(TcWrite::Ier(IR_CPCS));
        }
    }

    pub fn get_alarm(&self) -> (r: u32)
        ensures
            r == self.alarm_target,
    {
        self.alarm_target
    }

    /// Disarm the alarm and turn the compare interrupt off.
    pub fn disarm(&mut self) -> (r: Result<(), ErrorCode>)
        ensures
            r is Ok,
            !final(self).armed,
            final(self).alarm_target == old(self).alarm_target,
            final(self).overflow == old(self).overflow,
            final(self).running == old(self).running,
            final(self).client == old(self).client,
            final(self).writes@ == old(self).writes@.push(TcWrite::Idr(IR_CPCS)),
    {
        self.armed = false;
        self.writes.push(TcWrite::Idr(IR_CPCS));
        Ok(())
    }

    pub fn is_armed(&self) -> (r: bool)
        ensures
            r == self.armed,
    {
        self.armed
    }

    pub fn minimum_dt(&self) -> (r: u32)
        ensures
            r == MINIMUM_DT,
    {
        MINIMUM_DT
    }
}

/// The 32-bit count is the overflow count times 65536 plus the counter's
/// 16 bits, modulo 2^32: its high half is the overflow count's low 16 bits
/// and its low half is the counter.
pub proof fn now_halves(overflow: u32, cv: u32)
    ensures
        spec_now(overflow, cv) >> 16u32 == overflow & 0xFFFF,
        spec_now(overflow, cv) & 0xFFFF == cv & 0xFFFF,
        spec_now(overflow, cv) == ((overflow as nat * 65536 + (cv & 0xFFFF) as nat) % 0x1_0000_0000),
{
    assert(((overflow << 16u32) | (cv & 0xFFFF)) >> 16u32 == overflow & 0xFFFF) by (bit_vector);
    assert(((overflow << 16u32) | (cv & 0xFFFF)) & 0xFFFF == cv & 0xFFFF) by (bit_vector);
    assert(((overflow << 16u32) | (cv & 0xFFFF)) == ((overflow & 0xFFFF) * 65536 + (cv & 0xFFFF)))
        by (bit_vector);
    assert((overflow & 0xFFFF) == overflow % 65536) by (bit_vector);
    assert(cv & 0xFFFF < 65536) by (bit_vector);
    assert(((overflow as nat * 65536 + (cv & 0xFFFF) as nat) % 0x1_0000_0000) == (overflow % 65536)
        * 65536 + (cv & 0xFFFF)) by (nonlinear_arith)
        requires
            (cv & 0xFFFF) < 65536,
    ;
}

} // verus!
