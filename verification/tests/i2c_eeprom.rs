use lib::twihs::{Twihs, TwihsState, TwihsWrite, TWIHS0_BASE, CR_START, CR_STOP, CR_SWRST, CR_SVDIS, CR_MSEN, CR_MSDIS, SR_TXRDY, SR_RXRDY, SR_TXCOMP, SR_NACK, SR_ARBLST, SR_OVRE, WP_KEY};
use lib::hil_i2c::{I2CDevice, I2cError, i2c_error_code};
use lib::at24mac402::{At24Mac402, At24State, At24Event, EEPROMPage, EXT_EUI48_ADDR, EXT_SERIAL_ADDR};
use lib::error::ErrorCode;
use lib::efc::FlashError;
use std::cell::RefCell;

const ERRORS: u32 = SR_NACK | SR_ARBLST | SR_OVRE;

fn idle_with_client() -> Twihs {
    let mut t = Twihs::new_twihs0();
    t.set_master_client(true);
    t
}

#[test]
fn twihs_new_instances_have_their_bases() {
    assert_eq!(Twihs::new_twihs0().base, TWIHS0_BASE);
    assert_eq!(Twihs::new_twihs1().base, 0x4001_C000);
    assert_eq!(Twihs::new_twihs2().base, 0x4006_0000);
    assert_eq!(Twihs::new_twihs0().state, TwihsState::Idle);
}

#[test]
fn twihs_set_speed_400k_and_100k() {
    let mut t = Twihs::new_twihs0();
    t.set_speed(400_000);
    // 150 MHz / 800 kHz = 187, less 3 = 184 = 0xB8, no prescaling.
    assert_eq!(t.writes, vec![TwihsWrite::Wpmr(WP_KEY << 8), TwihsWrite::Cwgr(0xB8B8)]);
    let mut t = Twihs::new_twihs0();
    t.set_speed(100_000);
    // 750 - 3 = 747, halved twice: 186 with exponent 2.
    assert_eq!(t.writes[1], TwihsWrite::Cwgr(186 | (186 << 8) | (2 << 16)));
}

#[test]
fn twihs_enable_and_disable() {
    let mut t = Twihs::new_twihs0();
    t.enable();
    assert_eq!(
        t.writes,
        vec![
            TwihsWrite::Cr(CR_SWRST),
            TwihsWrite::Wpmr(WP_KEY << 8),
            TwihsWrite::Cwgr(0xB8B8),
            TwihsWrite::Cr(CR_SVDIS | CR_MSEN),
        ]
    );
    t.disable();
    assert_eq!(t.writes[4..], [TwihsWrite::Idr(0xFFFF_FFFF), TwihsWrite::Cr(CR_MSDIS)]);
}

#[test]
fn twihs_write_sends_bytes_then_stops() {
    let mut t = idle_with_client();
    assert!(t.write(0x50, vec![1, 2, 3], 3).is_ok());
    assert_eq!(t.state, TwihsState::Writing { len: 3, pos: 1 });
    assert_eq!(
        t.writes,
        vec![
            TwihsWrite::Mmr(0x50 << 16),
            TwihsWrite::Idr(0xFFFF_FFFF),
            TwihsWrite::Thr(1),
            TwihsWrite::Ier(SR_TXRDY),
            TwihsWrite::Ier(ERRORS),
        ]
    );
    t.writes.clear();
    assert!(t.handle_interrupt(SR_TXRDY, SR_TXRDY, 0).is_none());
    assert!(t.handle_interrupt(SR_TXRDY, SR_TXRDY, 0).is_none());
    assert_eq!(t.writes, vec![TwihsWrite::Thr(2), TwihsWrite::Thr(3)]);
    t.writes.clear();
    assert!(t.handle_interrupt(SR_TXRDY, SR_TXRDY, 0).is_none());
    assert_eq!(
        t.writes,
        vec![
            TwihsWrite::Cr(CR_STOP),
            TwihsWrite::Idr(0xFFFF_FFFF),
            TwihsWrite::Ier(SR_TXCOMP),
            TwihsWrite::Ier(ERRORS),
        ]
    );
    let done = t.handle_interrupt(SR_TXCOMP, SR_TXCOMP, 0).unwrap();
    assert_eq!(done.0, vec![1, 2, 3]);
    assert_eq!(done.1, Ok(()));
    assert_eq!(t.state, TwihsState::Idle);
    assert!(t.buffer.is_none());
}

#[test]
fn twihs_refuses_while_busy_and_bad_lengths() {
    let mut t = idle_with_client();
    assert_eq!(t.write(0x50, vec![], 0).unwrap_err().0, I2cError::Overrun);
    assert_eq!(t.write(0x50, vec![1], 2).unwrap_err().0, I2cError::Overrun);
    assert!(t.read(0x50, vec![0; 4], 4).is_ok());
    let (e, b) = t.write(0x50, vec![9], 1).unwrap_err();
    assert_eq!(e, I2cError::Busy);
    assert_eq!(b, vec![9]);
    assert_eq!(t.write_read(0x50, vec![1, 2], 1, 1).unwrap_err().0, I2cError::Busy);
}

#[test]
fn twihs_read_collects_bytes() {
    let mut t = idle_with_client();
    assert!(t.read(0x20, vec![0; 3], 3).is_ok());
    assert_eq!(t.writes[0], TwihsWrite::Mmr((0x20 << 16) | (1 << 12)));
    assert_eq!(t.writes[2], TwihsWrite::Cr(CR_START));
    t.writes.clear();
    assert!(t.handle_interrupt(SR_RXRDY, SR_RXRDY, 0x1AA).is_none());
    assert!(t.writes.is_empty());
    // With the second of three bytes in, STOP goes out before the last one.
    assert!(t.handle_interrupt(SR_RXRDY, SR_RXRDY, 0xBB).is_none());
    assert_eq!(t.writes, vec![TwihsWrite::Cr(CR_STOP)]);
    assert!(t.handle_interrupt(SR_RXRDY, SR_RXRDY, 0xCC).is_none());
    assert_eq!(t.writes[1..], [TwihsWrite::Idr(0xFFFF_FFFF), TwihsWrite::Ier(SR_TXCOMP), TwihsWrite::Ier(ERRORS)]);
    assert_eq!(t.state, TwihsState::Reading { len: 3, pos: 3 });
    let done = t.handle_interrupt(SR_TXCOMP, SR_TXCOMP, 0).unwrap();
    assert_eq!(done.0, vec![0xAA, 0xBB, 0xCC]);
    assert_eq!(done.1, Ok(()));
}

#[test]
fn twihs_single_byte_read_sends_start_and_stop() {
    let mut t = idle_with_client();
    assert!(t.read(0x20, vec![0; 1], 1).is_ok());
    assert_eq!(t.writes[2], TwihsWrite::Cr(CR_START | CR_STOP));
}

#[test]
fn twihs_short_write_read_uses_internal_address() {
    let mut t = idle_with_client();
    assert!(t.write_read(0x57, vec![0x12, 0x34, 0, 0], 2, 4).is_ok());
    assert_eq!(t.state, TwihsState::Reading { len: 4, pos: 0 });
    assert_eq!(t.writes[0], TwihsWrite::Mmr((0x57 << 16) | (1 << 12) | (2 << 8)));
    assert_eq!(t.writes[1], TwihsWrite::Iadr(0x1234));
}

#[test]
fn twihs_long_write_read_switches_to_read() {
    let mut t = idle_with_client();
    assert!(t.write_read(0x57, vec![1, 2, 3, 4, 0], 4, 2).is_ok());
    assert_eq!(t.state, TwihsState::WriteReading { write_len: 4, write_pos: 1, read_len: 2 });
    for _ in 0..3 {
        t.handle_interrupt(SR_TXRDY, SR_TXRDY, 0);
    }
    t.writes.clear();
    t.handle_interrupt(SR_TXRDY, SR_TXRDY, 0);
    assert_eq!(t.state, TwihsState::Reading { len: 2, pos: 0 });
    assert_eq!(
        t.writes,
        vec![
            TwihsWrite::Idr(0xFFFF_FFFF),
            TwihsWrite::ModifyMmr((0x7F << 16) | (1 << 12), (0x57 << 16) | (1 << 12)),
            TwihsWrite::Cr(CR_START),
            TwihsWrite::Ier(SR_RXRDY),
            TwihsWrite::Ier(ERRORS),
        ]
    );
}

#[test]
fn twihs_errors_end_the_transfer_in_priority_order() {
    let mut t = idle_with_client();
    assert!(t.write(0x50, vec![1, 2], 2).is_ok());
    let done = t.handle_interrupt(SR_NACK | SR_ARBLST, SR_NACK, 0).unwrap();
    assert_eq!(done.1, Err(I2cError::AddressNak));
    assert_eq!(t.state, TwihsState::Idle);
    assert!(t.write(0x50, vec![1, 2], 2).is_ok());
    let done = t.handle_interrupt(SR_ARBLST | SR_OVRE, SR_ARBLST, 0).unwrap();
    assert_eq!(done.1, Err(I2cError::ArbitrationLost));
    assert!(t.write(0x50, vec![1, 2], 2).is_ok());
    t.writes.clear();
    let done = t.handle_interrupt(SR_OVRE, SR_OVRE, 0).unwrap();
    assert_eq!(done.1, Err(I2cError::Overrun));
    assert_eq!(
        t.writes,
        vec![
            TwihsWrite::Cr(CR_SWRST),
            TwihsWrite::Cr(CR_SVDIS | CR_MSEN),
            TwihsWrite::Idr(0xFFFF_FFFF),
        ]
    );
}

#[test]
fn twihs_ignores_masked_interrupts() {
    let mut t = idle_with_client();
    assert!(t.write(0x50, vec![1, 2], 2).is_ok());
    t.writes.clear();
    assert!(t.handle_interrupt(SR_NACK, 0, 0).is_none());
    assert!(t.writes.is_empty());
    assert_eq!(t.state, TwihsState::Writing { len: 2, pos: 1 });
}

#[test]
fn i2c_errors_map_to_codes() {
    assert_eq!(i2c_error_code(I2cError::AddressNak), ErrorCode::NOACK);
    assert_eq!(i2c_error_code(I2cError::DataNak), ErrorCode::NOACK);
    assert_eq!(i2c_error_code(I2cError::ArbitrationLost), ErrorCode::RESERVE);
    assert_eq!(i2c_error_code(I2cError::Overrun), ErrorCode::SIZE);
    assert_eq!(i2c_error_code(I2cError::NotSupported), ErrorCode::NOSUPPORT);
    assert_eq!(i2c_error_code(I2cError::Busy), ErrorCode::BUSY);
}

/// An I2C device that records transfers and answers as told.
struct FakeDevice {
    refuse: Option<I2cError>,
    log: RefCell<Vec<(Vec<u8>, usize, usize)>>,
}

impl FakeDevice {
    fn new(refuse: Option<I2cError>) -> FakeDevice {
        FakeDevice { refuse, log: RefCell::new(Vec::new()) }
    }
}

impl I2CDevice for FakeDevice {
    fn enable(&mut self) {}

    fn disable(&mut self) {}

    fn write_read(&mut self, data: Vec<u8>, write_len: usize, read_len: usize) -> Result<(), (I2cError, Vec<u8>)> {
        self.log.borrow_mut().push((data.clone(), write_len, read_len));
        match self.refuse {
            Some(e) => Err((e, data)),
            None => Ok(()),
        }
    }

    fn write(&mut self, data: Vec<u8>, len: usize) -> Result<(), (I2cError, Vec<u8>)> {
        self.log.borrow_mut().push((data.clone(), len, 0));
        match self.refuse {
            Some(e) => Err((e, data)),
            None => Ok(()),
        }
    }
}

#[test]
fn eeprom_reads_mac_address() {
    let mut e = At24Mac402::new(FakeDevice::new(None), FakeDevice::new(None), vec![0; 17]);
    e.set_meta_client();
    assert_eq!(e.read_mac_address(), Ok(()));
    assert_eq!(e.state, At24State::ReadingMac);
    {
        let log = e.i2c_ext.log.borrow();
        assert_eq!(log[0].0[0], EXT_EUI48_ADDR);
        assert_eq!((log[0].1, log[0].2), (1, 6));
    }
    assert_eq!(e.read_mac_address(), Err(ErrorCode::BUSY));
    let mut back = vec![0u8; 18];
    back[..6].copy_from_slice(&[0xFC, 0xC2, 0x3D, 0x01, 0x02, 0x03]);
    match e.command_complete(back, Ok(())) {
        At24Event::Mac(mac, status) => {
            assert_eq!(mac, [0xFC, 0xC2, 0x3D, 0x01, 0x02, 0x03]);
            assert_eq!(status, Ok(()));
        }
        _ => panic!("expected the MAC address"),
    }
    assert_eq!(e.state, At24State::Idle);
    assert!(e.buffer.is_some());
}

#[test]
fn eeprom_serial_read_failure_reports_fail() {
    let mut e = At24Mac402::new(FakeDevice::new(None), FakeDevice::new(None), vec![0; 18]);
    e.set_meta_client();
    assert_eq!(e.read_serial_number(), Ok(()));
    assert_eq!(e.i2c_ext.log.borrow()[0].0[0], EXT_SERIAL_ADDR);
    match e.command_complete(vec![7; 18], Err(I2cError::DataNak)) {
        At24Event::Serial(serial, status) => {
            assert_eq!(serial, [7; 16]);
            assert_eq!(status, Err(ErrorCode::FAIL));
        }
        _ => panic!("expected the serial number"),
    }
}

#[test]
fn eeprom_refused_transfer_returns_error_and_buffer() {
    let mut e = At24Mac402::new(FakeDevice::new(None), FakeDevice::new(Some(I2cError::AddressNak)), vec![0; 18]);
    assert_eq!(e.read_mac_address(), Err(ErrorCode::NOACK));
    assert_eq!(e.state, At24State::Idle);
    assert_eq!(e.buffer.as_ref().unwrap()[0], EXT_EUI48_ADDR);
}

#[test]
fn eeprom_page_bounds_and_missing_buffer() {
    let mut e = At24Mac402::new(FakeDevice::new(None), FakeDevice::new(None), vec![0; 18]);
    let (code, _) = e.read_page(16, EEPROMPage::default()).unwrap_err();
    assert_eq!(code, ErrorCode::INVAL);
    assert_eq!(e.erase_page(16), Err(ErrorCode::INVAL));
    assert!(e.read_page(2, EEPROMPage::default()).is_ok());
    assert_eq!(e.i2c.log.borrow()[0].0[0], 32);
    // The shared buffer is out until the transfer completes.
    let (code, _) = e.write_page(3, EEPROMPage::default()).unwrap_err();
    assert_eq!(code, ErrorCode::RESERVE);
}

#[test]
fn eeprom_page_round_trip() {
    let mut e = At24Mac402::new(FakeDevice::new(None), FakeDevice::new(None), vec![0; 18]);
    e.set_client();
    let page = EEPROMPage([5; 16]);
    assert!(e.write_page(1, page).is_ok());
    {
        let log = e.i2c.log.borrow();
        assert_eq!(log[0].1, 17);
        assert_eq!(log[0].0[0], 16);
        assert_eq!(&log[0].0[1..17], &[5; 16]);
    }
    let sent = e.i2c.log.borrow()[0].0.clone();
    match e.command_complete(sent, Ok(())) {
        At24Event::PageWritten(p, status) => {
            assert_eq!(p.0, [5; 16]);
            assert_eq!(status, Ok(()));
        }
        _ => panic!("expected a page write completion"),
    }
    assert!(e.read_page(1, EEPROMPage::default()).is_ok());
    let mut back = vec![0u8; 18];
    back[..16].copy_from_slice(&[5; 16]);
    match e.command_complete(back, Err(I2cError::DataNak)) {
        At24Event::PageRead(p, status) => {
            assert_eq!(p.0, [5; 16]);
            assert_eq!(status, Err(FlashError::FlashError));
        }
        _ => panic!("expected a page read completion"),
    }
}

#[test]
fn eeprom_erase_writes_zeros() {
    let mut e = At24Mac402::new(FakeDevice::new(None), FakeDevice::new(None), vec![0xEE; 20]);
    e.set_client();
    assert!(e.erase_page(15).is_ok());
    {
        let log = e.i2c.log.borrow();
        assert_eq!(log[0].0[0], 240);
        assert_eq!(&log[0].0[1..17], &[0; 16]);
        assert_eq!(&log[0].0[17..], &[0xEE; 3]);
        assert_eq!(log[0].1, 17);
    }
    match e.command_complete(vec![0; 18], Ok(())) {
        At24Event::PageErased(status) => assert_eq!(status, Ok(())),
        _ => panic!("expected an erase completion"),
    }
}
