use lib::uart::{Usart1, Parameters, Parity, StopBits, Width, UsartWrite, TxState, RxState, UartError, IR_RXRDY, IR_TXRDY, IR_TXEMPTY, IR_TIMEOUT, IR_OVRE, IR_FRAME, IR_PARE, CR_RSTSTA, CR_STTTO};
use lib::xdmac::{Xdmac, XdmacAccess, channel_reg, global_reg, CUBC, CC, GD, GE};
use lib::pmc::{Pmc, PmcOp, SR_MCKRDY, SR_LOCKA};
use lib::tc::{Tc, TcWrite, IR_COVFS, IR_CPCS, CMR_WAVE_UP_SLCK, CCR_CLKEN, CCR_SWTRG};
use lib::wdt::{Wdt, WdtWrite, MAX_PERIOD_MS};
use lib::gpbr::{Gpbr, GpbrIndex, GpbrWrite};
use lib::gpio::{GPIOPin, Pin, PortB, PortA, PeripheralFunction, GpioWrite, GpioReg, RegAction, FloatingState, Configuration, InterruptEdge, pin_at};
use lib::chip::{Atsamv71q21bDefaultPeripherals, InterruptRoute};
use lib::mcan::MessageRam;
use lib::efc::{Efc, Sam71Page, page_location, plan_erase, flash_result, FlashError, latch_plan, EfcStep, MATRIX_SCFG2, CCR_IC, CCR_DC};
use lib::error::ErrorCode;

fn params(baud: u32, parity: Parity, stop_bits: StopBits) -> Parameters {
    Parameters { baud_rate: baud, width: Width::Eight, parity, stop_bits, hw_flow_control: false }
}

#[test]
fn usart_configure_115200() {
    let mut u = Usart1::new();
    assert_eq!(u.configure(params(115_200, Parity::NoParity, StopBits::One)), Ok(()));
    assert_eq!(u.writes[1], UsartWrite::Mr((3 << 6) | (4 << 9)));
    // 150 MHz / (16 * 115200) = 81.
    assert_eq!(u.writes[2], UsartWrite::Brgr(81));
    let mut u = Usart1::new();
    let _ = u.configure(params(9_600, Parity::Odd, StopBits::Two));
    assert_eq!(u.writes[1], UsartWrite::Mr((3 << 6) | (1 << 9) | (2 << 12)));
    assert_eq!(u.writes[2], UsartWrite::Brgr(976));
}

#[test]
fn usart_transmit_flow() {
    let mut u = Usart1::new();
    u.set_transmit_client(true);
    assert!(u.transmit_buffer(vec![0x41, 0x42], 2).is_ok());
    assert_eq!(u.transmit_buffer(vec![1], 1).unwrap_err().0, ErrorCode::BUSY);
    let (rx, tx) = u.handle_interrupt(IR_TXRDY, IR_TXRDY, 0, 0);
    assert!(rx.is_none() && tx.is_none());
    let (_, tx) = u.handle_interrupt(IR_TXRDY, IR_TXRDY, 0, 0);
    assert!(tx.is_none());
    assert_eq!(u.tx_state, TxState::WaitingEmpty);
    let (_, tx) = u.handle_interrupt(IR_TXEMPTY, IR_TXEMPTY, 0, 0);
    let done = tx.unwrap();
    assert_eq!(done.buffer, vec![0x41, 0x42]);
    assert_eq!(done.len, 2);
    assert_eq!(done.rcode, Ok(()));
    assert_eq!(
        u.writes,
        vec![
            UsartWrite::Ier(IR_TXRDY),
            UsartWrite::Thr(0x41),
            UsartWrite::Thr(0x42),
            UsartWrite::Idr(IR_TXRDY),
            UsartWrite::Ier(IR_TXEMPTY),
            UsartWrite::Idr(IR_TXEMPTY),
        ]
    );
    assert_eq!(u.transmit_buffer(vec![], 0).unwrap_err().0, ErrorCode::SIZE);
}

#[test]
fn usart_transmit_abort_reports_cancel() {
    let mut u = Usart1::new();
    u.set_transmit_client(true);
    assert_eq!(u.transmit_abort().0, Ok(()));
    assert!(u.transmit_buffer(vec![1, 2, 3], 3).is_ok());
    let _ = u.handle_interrupt(IR_TXRDY, IR_TXRDY, 0, 0);
    let (r, done) = u.transmit_abort();
    assert_eq!(r, Err(ErrorCode::BUSY));
    let done = done.unwrap();
    assert_eq!(done.len, 1);
    assert_eq!(done.rcode, Err(ErrorCode::CANCEL));
    assert_eq!(u.tx_state, TxState::Idle);
}

#[test]
fn usart_receive_bytes_until_full() {
    let mut u = Usart1::new();
    u.set_receive_client(true);
    assert!(u.receive_buffer(vec![0; 4], 2).is_ok());
    assert_eq!(u.writes[0], UsartWrite::Ier(IR_RXRDY | IR_OVRE | IR_FRAME | IR_PARE));
    let (rx, _) = u.handle_interrupt(IR_RXRDY, IR_RXRDY, 0x161, 0);
    assert!(rx.is_none());
    let (rx, _) = u.handle_interrupt(IR_RXRDY, IR_RXRDY, 0x62, 0);
    let done = rx.unwrap();
    assert_eq!(&done.buffer[..2], &[0x61, 0x62]);
    assert_eq!(done.len, 2);
    assert_eq!(done.error, UartError::NoError);
    assert_eq!(u.rx_state, RxState::Idle);
}

#[test]
fn usart_receive_error_reports_framing() {
    let mut u = Usart1::new();
    u.set_receive_client(true);
    assert!(u.receive_buffer(vec![0; 4], 4).is_ok());
    let (rx, _) = u.handle_interrupt(IR_FRAME | IR_PARE, IR_RXRDY, 0, 0);
    let done = rx.unwrap();
    assert_eq!(done.rcode, Err(ErrorCode::FAIL));
    assert_eq!(done.error, UartError::FramingError);
    assert_eq!(u.writes[2], UsartWrite::Cr(CR_RSTSTA));
}

#[test]
fn usart_receive_automatic_without_dma_times_out() {
    let mut u = Usart1::new();
    u.set_receive_client(true);
    assert!(u.receive_automatic(vec![0; 8], 8, 20, 0x2040_1000).is_ok());
    assert_eq!(u.rx_state, RxState::Receiving);
    assert_eq!(u.writes[..2], [UsartWrite::Rtor(20), UsartWrite::Cr(CR_STTTO)]);
    let _ = u.handle_interrupt(IR_RXRDY, IR_RXRDY, 7, 0);
    let (rx, _) = u.handle_interrupt(IR_TIMEOUT, IR_TIMEOUT | IR_RXRDY, 0, 0);
    let done = rx.unwrap();
    assert_eq!(done.len, 1);
    assert_eq!(done.buffer[0], 7);
    assert_eq!(done.rcode, Ok(()));
}

#[test]
fn usart_receive_automatic_with_dma() {
    let mut u = Usart1::new();
    u.set_receive_client(true);
    u.set_xdmac(Xdmac::new());
    assert!(u.receive_automatic(vec![0; 64], 64, 10, 0x2040_1000).is_ok());
    assert_eq!(u.rx_state, RxState::ReceivingDma);
    assert_eq!(u.xdmac.as_ref().unwrap().rx_original_count(), 64);
    let n = u.writes.len();
    assert_eq!(u.writes[n - 4], UsartWrite::Dma(XdmacAccess::Write(global_reg(GE), 1)));
    assert_eq!(u.writes[n - 3], UsartWrite::Rtor(50));
    assert_eq!(u.writes[n - 1], UsartWrite::Ier(IR_TIMEOUT | IR_OVRE));
    // 40 of 64 bytes arrived when the line went idle.
    let (rx, _) = u.handle_interrupt(IR_TIMEOUT, IR_TIMEOUT | IR_OVRE, 0, 24);
    let done = rx.unwrap();
    assert_eq!(done.len, 40);
    assert_eq!(done.rcode, Ok(()));
    assert_eq!(u.rx_state, RxState::Idle);
}

#[test]
fn usart_dma_overrun_and_abort() {
    let mut u = Usart1::new();
    u.set_receive_client(true);
    u.set_xdmac(Xdmac::new());
    assert!(u.receive_automatic(vec![0; 16], 16, 1, 0).is_ok());
    let (rx, _) = u.handle_interrupt(IR_OVRE, 0, 0, 0);
    let done = rx.unwrap();
    assert_eq!(done.len, 16);
    assert_eq!(done.error, UartError::OverrunError);
    assert!(u.receive_automatic(vec![0; 16], 16, 1, 0).is_ok());
    let (r, done) = u.receive_abort(10);
    assert_eq!(r, Err(ErrorCode::BUSY));
    let done = done.unwrap();
    assert_eq!(done.len, 6);
    assert_eq!(done.error, UartError::Aborted);
    assert_eq!(u.receive_abort(0).0, Ok(()));
}

#[test]
fn xdmac_addresses_and_configuration() {
    assert_eq!(channel_reg(0, CUBC), 0x4007_8070);
    assert_eq!(channel_reg(2, CC), 0x4007_8000 + 0x50 + 0x80 + 0x28);
    let mut x = Xdmac::new();
    let ops = x.configure_periph_to_mem(0, 10, 0x4002_8018, 0x2040_0000, 100);
    assert_eq!(ops.len(), 9);
    assert_eq!(ops[0], XdmacAccess::Write(0x4007_8000 + GD, 1));
    assert_eq!(ops[8], XdmacAccess::Write(channel_reg(0, CC), 0x0A04_2001));
    assert_eq!(x.rx_original_count(), 100);
    let _ = x.configure_periph_to_mem(3, 9, 0, 0, 7);
    assert_eq!(x.rx_original_count(), 100);
    assert_eq!(x.usart1_rx_transferred(0xFF00_0000 | 30), 70);
    assert_eq!(x.remaining_count(0x1234_5678), 0x34_5678);
    assert!(x.is_channel_enabled(3, 1 << 3));
    assert!(!x.is_channel_enabled(3, 1 << 2));
    assert_eq!(x.handle_interrupt(1, 1), 1);
    assert_eq!(x.handle_interrupt(1, 2), 0);
    assert_eq!(x.handle_interrupt(2, 1), 0);
}

#[test]
fn pmc_clock_setup_for_each_rc_frequency() {
    let pmc = Pmc::new();
    let ops = pmc.setup_clocks(2 << 4);
    assert_eq!(ops.len(), 10);
    assert_eq!(ops[3], PmcOp::Pllar((1 << 29) | (24 << 16) | (0x3F << 8) | 1));
    assert_eq!(ops[4], PmcOp::WaitSr(SR_LOCKA));
    assert_eq!(ops[5], PmcOp::ModifyMckr(3 << 8, 1 << 8));
    assert_eq!(ops[7], PmcOp::ModifyMckr(3, 2));
    assert_eq!(ops[8], PmcOp::WaitSr(SR_MCKRDY));
    assert_eq!(ops[9], PmcOp::Wpmr((0x504D43 << 8) | 1));
    assert_eq!(pmc.setup_clocks(0)[3], PmcOp::Pllar((1 << 29) | (74 << 16) | (0x3F << 8) | 1));
    assert_eq!(pmc.setup_clocks(1 << 4)[3], PmcOp::Pllar((1 << 29) | (74 << 16) | (0x3F << 8) | 2));
}

#[test]
fn pmc_peripheral_clocks() {
    let pmc = Pmc::new();
    assert_eq!(pmc.enable_peripheral_clock(14)[1], PmcOp::Pcer(0, 1 << 14));
    assert_eq!(pmc.enable_peripheral_clock(41)[1], PmcOp::Pcer(1, 1 << 9));
    assert_eq!(pmc.disable_peripheral_clock(58)[1], PmcOp::Pcdr(1, 1 << 26));
    assert_eq!(pmc.enable_peripheral_clock(70).len(), 2);
    assert!(pmc.is_peripheral_clock_enabled(37, 0, 1 << 5));
    assert!(!pmc.is_peripheral_clock_enabled(5, 0, 1 << 5));
    assert!(!pmc.is_peripheral_clock_enabled(64, u32::MAX, u32::MAX));
    let pck = pmc.configure_pck(5, 2, 14);
    assert_eq!(pck[1], PmcOp::Pck(5, 2 | (14 << 4)));
    assert_eq!(pck[2], PmcOp::Scer(1 << 13));
    assert_eq!(pck[3], PmcOp::WaitSr(1 << 13));
    assert!(pmc.configure_pck(8, 2, 14).is_empty());
}

#[test]
fn tc_counts_and_fires_alarm() {
    let mut tc = Tc::new();
    assert_eq!(tc.start(), Ok(()));
    assert_eq!(
        tc.writes,
        vec![TcWrite::Cmr(CMR_WAVE_UP_SLCK), TcWrite::Ier(IR_COVFS), TcWrite::Ccr(CCR_CLKEN | CCR_SWTRG)]
    );
    assert_eq!(tc.start(), Ok(()));
    assert_eq!(tc.writes.len(), 3);
    assert_eq!(tc.now(0x1234), 0x1234);
    // The alarm is two windows ahead: nothing is loaded yet.
    tc.set_alarm(0x0000_F000, 0x0002_0000, 0xF000);
    assert_eq!(tc.get_alarm(), 0x0002_F000);
    assert!(tc.is_armed());
    assert_eq!(tc.writes.len(), 3);
    assert!(!tc.handle_interrupt(IR_COVFS));
    assert_eq!(tc.overflow, 1);
    assert_eq!(tc.writes.len(), 3);
    assert!(!tc.handle_interrupt(IR_COVFS));
    assert_eq!(tc.writes[3..], [TcWrite::Rc(0xF000), TcWrite::Ier(IR_CPCS)]);
    assert_eq!(tc.now(5), 0x0002_0005);
    tc.set_alarm_client();
    assert!(tc.handle_interrupt(IR_CPCS));
    assert!(!tc.is_armed());
    assert_eq!(tc.writes[5], TcWrite::Idr(IR_CPCS));
    assert!(!tc.handle_interrupt(IR_CPCS));
}

#[test]
fn tc_alarm_in_current_window_loads_now() {
    let mut tc = Tc::new();
    tc.set_alarm(100, 50, 120);
    assert_eq!(tc.writes, vec![TcWrite::Rc(150), TcWrite::Ier(IR_CPCS)]);
    assert_eq!(tc.disarm(), Ok(()));
    assert!(!tc.is_armed());
    tc.set_alarm(u32::MAX, 2, 0);
    assert_eq!(tc.get_alarm(), 1);
    assert_eq!(tc.minimum_dt(), 4);
    assert_eq!(tc.reset(), Ok(()));
    assert_eq!(tc.overflow, 0);
    assert_eq!(tc.stop(), Ok(()));
    assert!(!tc.is_running());
}

#[test]
fn watchdog_ticks_are_clamped() {
    assert_eq!(Wdt::ticks(1000), 256);
    assert_eq!(Wdt::ticks(0), 1);
    assert_eq!(Wdt::ticks(1), 1);
    assert_eq!(MAX_PERIOD_MS, 15996);
    assert_eq!(Wdt::ticks(60_000), 4094);
    let w = Wdt::new();
    assert_eq!(w.start(1000), WdtWrite::Mr(256 | (256 << 16) | (1 << 13) | (1 << 28) | (1 << 29)));
    assert_eq!(w.disable(), WdtWrite::Mr(1 << 15));
    assert_eq!(w.pet(), WdtWrite::Cr(0xA500_0001));
    assert_eq!(w.setup(), w.pet());
    assert_eq!(w.suspend(), None);
}

#[test]
fn backup_register_addresses() {
    let g = Gpbr::new();
    assert_eq!(g.address(GpbrIndex::Gpbr0), 0x400E_1890);
    assert_eq!(g.get(GpbrIndex::Gpbr7), 0x400E_18AC);
    assert_eq!(g.set(GpbrIndex::Gpbr3, 42), GpbrWrite { address: 0x400E_189C, value: 42 });
}

#[test]
fn gpio_pins_are_named_by_port_and_bit() {
    let p = GPIOPin::new(Pin::PB12);
    assert_eq!((p.port, p.pin_mask), (1, 1 << 12));
    let p = GPIOPin::new(Pin::PC00);
    assert_eq!((p.port, p.pin_mask), (2, 1));
    let p = GPIOPin::new(Pin::PE05);
    assert_eq!((p.port, p.pin_mask), (4, 1 << 5));
    assert_eq!(p.port_address(), 0x400E_0E00 + 4 * 0x200);
    assert_eq!(pin_at(1, 13), Some(Pin::PB13));
    assert_eq!(pin_at(1, 10), None);
    assert_eq!(pin_at(4, 6), None);
    assert_eq!(pin_at(5, 0), None);
}

#[test]
fn gpio_peripheral_selection_and_pulls() {
    let p = GPIOPin::new(Pin::PA21);
    let w = p.select_peripheral(PeripheralFunction::D);
    let m = 1 << 21;
    assert_eq!(
        w,
        vec![
            GpioWrite { port: 0, reg: GpioReg::Gper, action: RegAction::ClearBits, mask: m },
            GpioWrite { port: 0, reg: GpioReg::Pmr0, action: RegAction::SetBits, mask: m },
            GpioWrite { port: 0, reg: GpioReg::Pmr1, action: RegAction::SetBits, mask: m },
            GpioWrite { port: 0, reg: GpioReg::Pmr2, action: RegAction::ClearBits, mask: m },
        ]
    );
    let w = p.set_floating_state(FloatingState::PullUp);
    assert_eq!(w[0].reg, GpioReg::Pder);
    assert_eq!(w[0].action, RegAction::ClearBits);
    assert_eq!(w[1].reg, GpioReg::Puer);
    assert_eq!(w[1].action, RegAction::SetBits);
    assert_eq!(p.floating_state(m, m), FloatingState::PullDown);
    assert_eq!(p.floating_state(0, m), FloatingState::PullUp);
    assert_eq!(p.floating_state(0, 0), FloatingState::PullNone);
    assert_eq!(p.make_output().1, Configuration::Output);
    assert_eq!(p.make_input().1, Configuration::Input);
    assert_eq!(p.configure(None).len(), 1);
}

#[test]
fn gpio_configuration_reads_as_the_driver_computes() {
    let p0 = GPIOPin::new(Pin::PA00);
    assert_eq!(p0.configuration(1, 1), Configuration::InputOutput);
    assert_eq!(p0.configuration(1, 0), Configuration::Input);
    assert_eq!(p0.configuration(0, 1), Configuration::Function);
    let p5 = GPIOPin::new(Pin::PA05);
    // The GPIO test compares the masked bits with one.
    assert_eq!(p5.configuration(1 << 5, 0), Configuration::Function);
}

#[test]
fn gpio_interrupts_count_and_mode() {
    let p = GPIOPin::new(Pin::PD03);
    let (w, c) = p.enable_interrupts(InterruptEdge::FallingEdge, 0, 2);
    assert_eq!(c, 3);
    assert_eq!(w[0].action, RegAction::ClearBits);
    assert_eq!(w[1].action, RegAction::SetBits);
    assert_eq!(w[2], GpioWrite { port: 3, reg: GpioReg::Ier, action: RegAction::SetBits, mask: 1 << 3 });
    let (w, c) = p.enable_interrupts(InterruptEdge::RisingEdge, 1 << 3, 3);
    assert_eq!((w.len(), c), (2, 3));
    assert_eq!(p.disable_interrupt(1 << 3, 3).1, 2);
    assert_eq!(p.disable_interrupt(0, 3), (None, 3));
    assert!(p.is_pending(1 << 3));
    assert!(p.read(0xFFFF_FFFF));
    assert!(!p.toggle(0).1);
}

#[test]
fn gpio_port_dispatches_in_bit_order() {
    let port = PortA::new();
    let fired = port.handle_interrupt(0b1010_0100, 0b1000_0110);
    let pins: Vec<Pin> = fired.iter().map(|f| f.pin).collect();
    assert_eq!(pins, vec![Pin::PA02, Pin::PA07]);
    assert_eq!(fired[1].clear, GpioWrite { port: 0, reg: GpioReg::Ifr, action: RegAction::ClearBits, mask: 1 << 7 });
    let port = PortB::new();
    let fired = port.handle_interrupt((1 << 12) | (1 << 3), u32::MAX);
    let pins: Vec<Pin> = fired.iter().map(|f| f.pin).collect();
    assert_eq!(pins, vec![Pin::PB03, Pin::PB12]);
    // A flag of a bit with no pin is passed over.
    let fired = port.handle_interrupt((1 << 10) | (1 << 12), u32::MAX);
    let pins: Vec<Pin> = fired.iter().map(|f| f.pin).collect();
    assert_eq!(pins, vec![Pin::PB12]);
}

#[test]
fn interrupts_route_to_peripherals() {
    let ram = MessageRam::new();
    let p = Atsamv71q21bDefaultPeripherals::new(&ram, 0x2040_0000);
    assert_eq!(p.service_interrupt(6), Some(InterruptRoute::Efc));
    assert_eq!(p.service_interrupt(14), Some(InterruptRoute::Usart1));
    assert_eq!(p.service_interrupt(58), Some(InterruptRoute::Xdmac));
    assert_eq!(p.service_interrupt(23), Some(InterruptRoute::Tc0));
    assert_eq!(p.service_interrupt(16), Some(InterruptRoute::PortD));
    assert_eq!(p.service_interrupt(19), Some(InterruptRoute::Twihs0));
    assert_eq!(p.service_interrupt(37), Some(InterruptRoute::Mcan1));
    assert_eq!(p.service_interrupt(38), Some(InterruptRoute::Mcan1));
    assert_eq!(p.service_interrupt(64), Some(InterruptRoute::EccWarning));
    assert_eq!(p.service_interrupt(65), Some(InterruptRoute::EccFault));
    assert_eq!(p.service_interrupt(35), None);
    assert_eq!(p.service_interrupt(200), None);
    assert_eq!(p.mcan1.msg_ram_base, 0x2040_0000);
}

#[test]
fn flash_page_checks_and_plans() {
    assert_eq!(page_location(4096), Err(ErrorCode::INVAL));
    assert_eq!(page_location(1), Ok(0x0040_0200));
    assert_eq!(plan_erase(0, &[0xFFFF_FFFF; 128]), Ok(None));
    let plan = plan_erase(33, &[0; 128]).unwrap().unwrap();
    // Unlock region 1, erase the 16-page block from page 32.
    assert_eq!(plan.clb_fcr, (0x5A << 24) | (1 << 8) | 0x09);
    assert_eq!(plan.epa_fcr, (0x5A << 24) | ((32 | 2) << 8) | 0x07);
    assert_eq!(flash_result(0x01), Ok(()));
    assert_eq!(flash_result(0x04), Err(FlashError::FlashError));
}

#[test]
fn flash_driver_with_client() {
    let mut efc = Efc::new();
    assert_eq!(efc.init(), 0x600);
    efc.set_client();
    let (e, _) = efc.read_page(5000, Sam71Page::default(), &[]).unwrap_err();
    assert_eq!(e, ErrorCode::INVAL);
    let flash = [0x5Au8; 512];
    let (page, status) = efc.read_page(3, Sam71Page::default(), &flash).unwrap().unwrap();
    assert_eq!(page.0, [0x5A; 512]);
    assert_eq!(status, Ok(()));
    assert_eq!(efc.erase_page(7, &[0xFFFF_FFFF; 128]), Ok((None, Some(Ok(())))));
    let (plan, now) = efc.erase_page(7, &[1; 128]).unwrap();
    assert!(plan.is_some() && now.is_none());
    assert_eq!(efc.erase_done(0x02), Some(Err(FlashError::FlashError)));
    let (erase, latch, _) = efc.write_page(16, Sam71Page::default(), &[0xFFFF_FFFF; 128], 3 << 16).unwrap();
    assert!(erase.is_none());
    assert_eq!(latch.page_addr, 0x0040_2000);
    assert!(latch.icache_on && latch.dcache_on);
    assert_eq!(latch.wp_fcr, (0x5A << 24) | (16 << 8) | 0x01);
    let (p, s) = efc.write_done(Sam71Page::default(), 0).unwrap();
    assert_eq!(p.0, [0; 512]);
    assert_eq!(s, Ok(()));
}

#[test]
fn flash_write_steps_restore_in_reverse() {
    let plan = latch_plan(2, CCR_IC | CCR_DC | 1);
    // 128 sets (field 127) and 4 ways (field 3).
    let ccsidr = (127 << 13) | (3 << 3);
    let steps = plan.steps(ccsidr);
    assert_eq!(steps[0], EfcStep::CcrWrite(CCR_DC | 1));
    assert!(steps.contains(&EfcStep::InvalidateDCache(127, 3)));
    let copy = steps.iter().position(|s| *s == EfcStep::CopyPage(0x0040_0400)).unwrap();
    assert_eq!(steps[copy + 2], EfcStep::Iap((0x5A << 24) | (2 << 8) | 0x01));
    let clear = steps.iter().position(|s| *s == EfcStep::SaveAndClearDefaultMaster(MATRIX_SCFG2)).unwrap();
    let restore = steps.iter().position(|s| *s == EfcStep::RestoreScfg(MATRIX_SCFG2)).unwrap();
    assert!(clear < copy && copy < restore);
    assert_eq!(steps[steps.len() - 2], EfcStep::CcrSet(CCR_DC));
    let plain = latch_plan(2, 0).steps(ccsidr);
    assert_eq!(plain[0], EfcStep::InvalidateICache);
    assert!(!plain.contains(&EfcStep::InvalidateDCache(127, 3)));
    assert_eq!(plain.len(), steps.len() - 3 - 6 - 6 - 2);
}
