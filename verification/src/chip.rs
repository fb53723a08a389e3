//! The chip's default peripherals and the routing of their interrupts.
use vstd::prelude::*;
use crate::nvic;
use crate::gpio::{PortA, PortB, PortC, PortD, PortE};
use crate::uart::Usart1;
use crate::tc::Tc;
use crate::efc::Efc;
use crate::xdmac::Xdmac;
use crate::twihs::{Twihs, TwihsState, TWIHS0_BASE};
use crate::mcan::{Mcan, MessageRam, McanState, MCAN1_BASE, MSG_RAM_WORDS};

verus! {

/// The peripherals the board uses.
pub struct Atsamv71q21bDefaultPeripherals {
    pub pa: PortA,
    pub pb: PortB,
    pub pc: PortC,
    pub pd: PortD,
    pub pe: PortE,
    pub usart1: Usart1,
    pub tc0: Tc,
    pub efc: Efc,
    pub xdmac: Xdmac,
    pub twihs0: Twihs,
    pub mcan1: Mcan,
}

/// Which handler an interrupt goes to.
#[derive(Clone, Copy, Debug, PartialEq, Eq, Structural)]
pub enum InterruptRoute {
    Efc,
    Usart1,
    Xdmac,
    Tc0,
    PortA,
    PortB,
    PortC,
    PortD,
    PortE,
    Twihs0,
    Mcan1,
    /// A corrected ECC error: the data is already fixed; nothing to do.
    EccWarning,
    /// An uncorrectable ECC error: fatal.
    EccFault,
}

/// The handler of interrupt `interrupt`, if the chip handles it.
pub open spec fn spec_route(interrupt: u32) -> Option<InterruptRoute> {
    if interrupt == nvic::EFC {
        Some(InterruptRoute::Efc)
    } else if interrupt == nvic::USART1 {
        Some(InterruptRoute::Usart1)
    } else if interrupt == nvic::XDMAC {
        Some(InterruptRoute::Xdmac)
    } else if interrupt == nvic::TC0_CH0 {
        Some(InterruptRoute::Tc0)
    } else if interrupt == nvic::PIOA {
        Some(InterruptRoute::PortA)
    } else if interrupt == nvic::PIOB {
        Some(InterruptRoute::PortB)
    } else if interrupt == nvic::PIOC {
        Some(InterruptRoute::PortC)
    } else if interrupt == nvic::PIOD {
        Some(InterruptRoute::PortD)
    } else if interrupt == nvic::PIOE {
        Some(InterruptRoute::PortE)
    } else if interrupt == nvic::TWIHS0 {
        Some(InterruptRoute::Twihs0)
    } else if interrupt == nvic::MCAN1_INT0 || interrupt == nvic::MCAN1_INT1 {
        Some(InterruptRoute::Mcan1)
    } else if interrupt == nvic::ECC_WARNING {
        Some(InterruptRoute::EccWarning)
    } else if interrupt == nvic::ECC_FAULT {
        Some(InterruptRoute::EccFault)
    } else {
        None
    }
}

impl Atsamv71q21bDefaultPeripherals {
    /// The peripherals, with MCAN1 over `mcan1_msg_ram`, which lies at
    /// `msg_ram_base`.
    pub fn new(mcan1_msg_ram: &MessageRam, msg_ram_base: u32) -> (r: Self)
        requires
            msg_ram_base as int + MSG_RAM_WORDS * 4 <= u32::MAX,
        ensures
            r.usart1.wf(),
            r.usart1.xdmac is None,
            r.tc0.overflow == 0 && !r.tc0.running && !r.tc0.armed,
            !r.efc.client,
            r.xdmac.rx_count() == 0,
            r.twihs0.wf(),
            r.twihs0.base == TWIHS0_BASE,
            r.twihs0.state == TwihsState::Idle,
            r.mcan1.wf(),
            r.mcan1.regs_base == MCAN1_BASE,
            r.mcan1.msg_ram_base == msg_ram_base,
            r.mcan1.state == McanState::Disabled,
    {
        Atsamv71q21bDefaultPeripherals {
            pa: PortA::new(),
            pb: PortB::new(),
            pc: PortC::new(),
            pd: PortD::new(),
            pe: PortE::new(),
            usart1: Usart1::new(),
            tc0: Tc::new(),
            efc: Efc::new(),
            xdmac: Xdmac::new(),
            twihs0: Twihs::new_twihs0(),
            mcan1: Mcan::new_mcan1(mcan1_msg_ram, msg_ram_base),
        }
    }

    /// Where interrupt `interrupt` is serviced; `None` when the chip does
    /// not handle it. Both MCAN1 lines go to MCAN1; a corrected ECC error
    /// needs nothing; an uncorrectable one is fatal.
    pub fn service_interrupt(&self, interrupt: u32) -> (r: Option<InterruptRoute>)
        ensures
            r == spec_route(interrupt),
    {
        if interrupt == nvic::EFC {
            Some(InterruptRoute::Efc)
        } else if interrupt == nvic::USART1 {
            Some(InterruptRoute::Usart1)
        } else if interrupt == nvic::XDMAC {
            Some(InterruptRoute::Xdmac)
        } else if interrupt == nvic::TC0_CH0 {
            Some(InterruptRoute::Tc0)
        } else if interrupt == nvic::PIOA {
            Some(InterruptRoute::PortA)
        } else if interrupt == nvic::PIOB {
            Some(InterruptRoute::PortB)
        } else if interrupt == nvic::PIOC {
            Some(InterruptRoute::PortC)
        } else if interrupt == nvic::PIOD {
            Some(InterruptRoute::PortD)
        } else if interrupt == nvic::PIOE {
            Some(InterruptRoute::PortE)
        } else if interrupt == nvic::TWIHS0 {
            Some(InterruptRoute::Twihs0)
        } else if interrupt == nvic::MCAN1_INT0 || interrupt == nvic::MCAN1_INT1 {
            Some(InterruptRoute::Mcan1)
        } else if interrupt == nvic::ECC_WARNING {
            Some(InterruptRoute::EccWarning)
        } else if interrupt == nvic::ECC_FAULT {
            Some(InterruptRoute::EccFault)
        } else {
            None
        }
    }
}

/// Each peripheral's interrupt goes to that peripheral's handler: a GPIO
/// port's to the port, either MCAN1 line to MCAN1. Everything else (other
/// peripherals, reserved numbers) is not handled.
pub proof fn interrupts_reach_their_peripheral(interrupt: u32)
    ensures
        spec_route(nvic::PIOA) == Some(InterruptRoute::PortA),
        spec_route(nvic::PIOB) == Some(InterruptRoute::PortB),
        spec_route(nvic::PIOC) == Some(InterruptRoute::PortC),
        spec_route(nvic::PIOD) == Some(InterruptRoute::PortD),
        spec_route(nvic::PIOE) == Some(InterruptRoute::PortE),
        spec_route(nvic::MCAN1_INT0) == Some(InterruptRoute::Mcan1),
        spec_route(nvic::MCAN1_INT1) == Some(InterruptRoute::Mcan1),
        spec_route(nvic::ECC_FAULT) == Some(InterruptRoute::EccFault),
        spec_route(interrupt) is Some ==> interrupt == nvic::EFC || interrupt == nvic::USART1
            || interrupt == nvic::XDMAC || interrupt == nvic::TC0_CH0 || interrupt == nvic::PIOA
            || interrupt == nvic::PIOB || interrupt == nvic::PIOC || interrupt == nvic::PIOD
            || interrupt == nvic::PIOE || interrupt == nvic::TWIHS0 || interrupt == nvic::MCAN1_INT0
            || interrupt == nvic::MCAN1_INT1 || interrupt == nvic::ECC_WARNING || interrupt
            == nvic::ECC_FAULT,
        spec_route(nvic::MCAN0_INT0) is None,
        spec_route(nvic::TWIHS1) is None,
{
}

} // verus!
