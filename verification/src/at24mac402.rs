//! The AT24MAC402 I2C EEPROM: 256 bytes of user memory in 16-byte pages,
//! plus a read-only block with a factory EUI-48 MAC address and a 128-bit
//! serial number.
//!
//! The capsule talks to two I2C devices on the same bus: the user memory at
//! 0x57 and the extended block at 0x5F (serial number at word address 0x80,
//! MAC address at 0x9A). One operation runs at a time, through one shared
//! buffer of at least 17 bytes (an address byte and up to 16 data bytes).
use vstd::prelude::*;
use crate::error::ErrorCode;
use crate::efc::FlashError;
use crate::hil_i2c::{I2CDevice, I2cError, I2cRequest, spec_i2c_error_code, i2c_error_code, transfer_status};

verus! {

/// Bytes per page.
pub const PAGE_SIZE: usize = 16;

/// Bytes of user memory.
pub const EEPROM_SIZE: usize = 256;

/// Bytes of the MAC address.
pub const EUI48_LEN: usize = 6;

/// Bytes of the serial number.
pub const SERIAL_LEN: usize = 16;

/// Word address of the serial number in the extended block.
pub const EXT_SERIAL_ADDR: u8 = 0x80;

/// Word address of the MAC address in the extended block.
pub const EXT_EUI48_ADDR: u8 = 0x9A;

/// Smallest shared buffer the capsule works with.
pub const MIN_BUFFER_LEN: usize = 17;

/// A page of user memory.
#[derive(Debug)]
pub struct EEPROMPage(pub [u8; 16]);

impl EEPROMPage {
    /// A zeroed page.
    pub fn default() -> (r: EEPROMPage)
        ensures
            forall|i: int| 0 <= i < 16 ==> r.0@[i] == 0,
    {
        EEPROMPage([0u8; 16])
    }

    /// The page's bytes.
    pub fn as_slice(&self) -> (r: &[u8])
        ensures
            r@ == self.0@,
    {
        self.0.as_slice()
    }
}

/// What the capsule is doing.
#[derive(Clone, Copy, Debug, PartialEq, Eq, Structural)]
pub enum At24State {
    Idle,
    /// Reading a page of user memory.
    ReadingPage,
    /// Writing a page of user memory.
    WritingPage,
    /// Erasing (writing zeros to) a page.
    ErasingPage,
    /// Reading the MAC address from the extended block.
    ReadingMac,
    /// Reading the serial number from the extended block.
    ReadingSerial,
}

/// The callback a finished operation makes.
pub enum At24Event {
    /// No callback.
    Silent,
    /// The MAC address was read (meaningful only on success).
    Mac([u8; 6], Result<(), ErrorCode>),
    /// The serial number was read (meaningful only on success).
    Serial([u8; 16], Result<(), ErrorCode>),
    /// A page was read into the client's page.
    PageRead(EEPROMPage, Result<(), FlashError>),
    /// A page was written from the client's page.
    PageWritten(EEPROMPage, Result<(), FlashError>),
    /// A page was erased.
    PageErased(Result<(), FlashError>),
}

/// The capsule over user memory `i2c` and the extended block `i2c_ext`.
pub struct At24Mac402<D: I2CDevice> {
    pub i2c: D,
    pub i2c_ext: D,
    pub buffer: Option<Vec<u8>>,
    pub client_page: Option<EEPROMPage>,
    /// Whether a flash client is registered.
    pub flash_client: bool,
    /// Whether a metadata client is registered.
    pub meta_client: bool,
    pub state: At24State,
}

/// The outcome of a transfer as the metadata client sees it.
pub open spec fn meta_result(status: Result<(), I2cError>) -> Result<(), ErrorCode> {
    if status is Err {
        Err(ErrorCode::FAIL)
    } else {
        Ok(())
    }
}

/// The outcome of a transfer as the flash client sees it.
pub open spec fn flash_result(status: Result<(), I2cError>) -> Result<(), FlashError> {
    if status is Err {
        Err(FlashError::FlashError)
    } else {
        Ok(())
    }
}

/// Whether `c` is how some I2C error is reported.
pub open spec fn is_i2c_code(c: ErrorCode) -> bool {
    exists|e: I2cError| c == spec_i2c_error_code(e)
}

/// The buffer holding the page write for `page` at `address`: the address
/// byte, then the page.
pub open spec fn page_write_image(buf: Seq<u8>, address: u8, page: Seq<u8>) -> Seq<u8> {
    seq![address] + page + buf.subrange(17, buf.len() as int)
}

/// The buffer holding the page erase at `address`: the address byte, then
/// sixteen zeros.
pub open spec fn page_erase_image(buf: Seq<u8>, address: u8) -> Seq<u8> {
    seq![address] + Seq::new(16, |i: int| 0u8) + buf.subrange(17, buf.len() as int)
}

/// A device's requests after a transfer was started on it: enabling it,
/// the transfer, and, when the transfer could not start, disabling it again.
pub open spec fn started(before: Seq<I2cRequest>, transfer: I2cRequest, ok: bool) -> Seq<
    I2cRequest,
> {
    before + seq![I2cRequest::Enable, transfer] + if ok {
        Seq::<I2cRequest>::empty()
    } else {
        seq![I2cRequest::Disable]
    }
}

impl<D: I2CDevice> At24Mac402<D> {
    /// The shared buffer, when held, is large enough; while an operation
    /// runs the buffer is out with it, so no second operation can start.
    pub open spec fn wf(&self) -> bool {
        &&& self.buffer matches Some(b) ==> b@.len() >= MIN_BUFFER_LEN
        &&& self.state != At24State::Idle ==> self.buffer is None
    }

    /// A capsule over the two devices, with the shared `buffer`.
    pub fn new(i2c: D, i2c_ext: D, buffer: Vec<u8>) -> (r: Self)
        requires
            buffer@.len() >= MIN_BUFFER_LEN,
        ensures
            r.wf(),
            r.i2c == i2c,
            r.i2c_ext == i2c_ext,
            r.buffer matches Some(b) && b@ == buffer@,
            r.client_page is None,
            !r.flash_client,
            !r.meta_client,
            r.state == At24State::Idle,
    {
        At24Mac402 {
            i2c,
            i2c_ext,
            buffer: Some(buffer),
            client_page: None,
            flash_client: false,
            meta_client: false,
            state: At24State::Idle,
        }
    }

    /// Register the metadata client.
    pub fn set_meta_client(&mut self)
        ensures
            final(self).meta_client,
            final(self).flash_client == old(self).flash_client,
            final(self).buffer == old(self).buffer,
            final(self).client_page == old(self).client_page,
            final(self).state == old(self).state,
    {
        self.meta_client = true;
    }

    /// Register the flash client.
    pub fn set_client(&mut self)
        ensures
            final(self).flash_client,
            final(self).meta_client == old(self).meta_client,
            final(self).buffer == old(self).buffer,
            final(self).client_page == old(self).client_page,
            final(self).state == old(self).state,
    {
        self.flash_client = true;
    }

    /// Start reading `len` bytes of the extended block at `word`, as
    /// operation `state`.
    fn read_ext(&mut self, word: u8, len: usize, state: At24State) -> (r: Result<(), ErrorCode>)
        requires
            old(self).wf(),
            old(self).state == At24State::Idle,
        ensures
            final(self).wf(),
            final(self).client_page == old(self).client_page,
            final(self).flash_client == old(self).flash_client,
            final(self).meta_client == old(self).meta_client,
            old(self).buffer is None ==> r == Err::<(), ErrorCode>(ErrorCode::RESERVE)
                && final(self).buffer is None && final(self).state == At24State::Idle,
            old(self).buffer is Some ==> {
                &&& r is Ok ==> final(self).state == state && final(self).buffer is None
                &&& r matches Err(c) ==> (is_i2c_code(c) && final(self).state == At24State::Idle
                    && final(self).buffer is Some && final(self).buffer.unwrap()@ == old(self).buffer.unwrap()@.update(
                    0,
                    word,)
                )
            },
            final(self).i2c == old(self).i2c,
            old(self).buffer is None ==> final(self).i2c_ext == old(self).i2c_ext,
            old(self).buffer is Some ==> exists|answer: Result<(), I2cError>|
                #[trigger] started(
                    old(self).i2c_ext.requests(),
                    I2cRequest::WriteRead(old(self).buffer.unwrap()@.update(0, word), 1, len, answer),
                    answer is Ok,
                ) == final(self).i2c_ext.requests() && (r is Ok <==> answer is Ok) && (answer matches Err(e)
                    ==> r == Err::<(), ErrorCode>(spec_i2c_error_code(e))),
    {
        match self.buffer.take() {
            None => Err(ErrorCode::RESERVE),
            Some(mut buf) => {
                buf.set(0, word);
                let ghost log0 = self.i2c_ext.requests();
                let ghost sent = buf@;
                self.i2c_ext.enable();
                self.state = state;
                let res = self.i2c_ext.write_read(buf, 1, len);
                let ghost answer = transfer_status(res);
                let ghost request = I2cRequest::WriteRead(sent, 1, len, answer);
                match res {
                    Err((error, back)) => {
                        self.buffer = Some(back);
                        self.i2c_ext.disable();
                        self.state = At24State::Idle;
                        assert(started(log0, request, answer is Ok) =~= self.i2c_ext.requests());
                        Err(i2c_error_code(error))
                    },
                    Ok(()) => {
                        assert(started(log0, request, answer is Ok) =~= self.i2c_ext.requests());
                        Ok(())
                    },
                }
            },
        }
    }

    /// Start reading the MAC address. `BUSY` while another operation runs;
    /// `RESERVE` when the shared buffer is out; an I2C error that keeps the
    /// transfer from starting comes back as its error code. The address
    /// arrives through `command_complete`.
    pub fn read_mac_address(&mut self) -> (r: Result<(), ErrorCode>)
        requires
            old(self).wf(),
        ensures
            final(self).wf(),
            final(self).client_page == old(self).client_page,
            final(self).flash_client == old(self).flash_client,
            final(self).meta_client == old(self).meta_client,
            old(self).state != At24State::Idle ==> r == Err::<(), ErrorCode>(ErrorCode::BUSY)
                && final(self).state == old(self).state && final(self).buffer == old(self).buffer,
            old(self).state == At24State::Idle && old(self).buffer is None ==> r == Err::<
                (),
                ErrorCode,
            >(ErrorCode::RESERVE) && final(self).buffer is None && final(self).state
                == At24State::Idle,
            old(self).state == At24State::Idle && old(self).buffer is Some ==> {
                &&& r is Ok ==> final(self).state == At24State::ReadingMac && final(self).buffer is None
                &&& r matches Err(c) ==> (is_i2c_code(c) && final(self).state == At24State::Idle
                    && final(self).buffer is Some && final(self).buffer.unwrap()@ == old(self).buffer.unwrap()@.update(
                    0,
                    EXT_EUI48_ADDR,)
                )
            },
            final(self).i2c == old(self).i2c,
            !(old(self).state == At24State::Idle && old(self).buffer is Some) ==> final(self).i2c_ext
                == old(self).i2c_ext,
            old(self).state == At24State::Idle && old(self).buffer is Some ==> exists|answer: Result<(), I2cError>|
                #[trigger] started(
                    old(self).i2c_ext.requests(),
                    I2cRequest::WriteRead(old(self).buffer.unwrap()@.update(0, EXT_EUI48_ADDR), 1, EUI48_LEN, answer),
                    answer is Ok,
                ) == final(self).i2c_ext.requests() && (r is Ok <==> answer is Ok) && (answer matches Err(e)
                    ==> r == Err::<(), ErrorCode>(spec_i2c_error_code(e))),
    {
        if self.state != At24State::Idle {
            return Err(ErrorCode::BUSY);
        }
        self.read_ext(EXT_EUI48_ADDR, EUI48_LEN, At24State::ReadingMac)
    }

    /// Start reading the serial number, as `read_mac_address` does the MAC
    /// address.
    pub fn read_serial_number(&mut self) -> (r: Result<(), ErrorCode>)
        requires
            old(self).wf(),
        ensures
            final(self).wf(),
            final(self).client_page == old(self).client_page,
            final(self).flash_client == old(self).flash_client,
            final(self).meta_client == old(self).meta_client,
            old(self).state != At24State::Idle ==> r == Err::<(), ErrorCode>(ErrorCode::BUSY)
                && final(self).state == old(self).state && final(self).buffer == old(self).buffer,
            old(self).state == At24State::Idle && old(self).buffer is None ==> r == Err::<
                (),
                ErrorCode,
            >(ErrorCode::RESERVE) && final(self).buffer is None && final(self).state
                == At24State::Idle,
            old(self).state == At24State::Idle && old(self).buffer is Some ==> {
                &&& r is Ok ==> final(self).state == At24State::ReadingSerial && final(self).buffer is None
                &&& r matches Err(c) ==> (is_i2c_code(c) && final(self).state == At24State::Idle
                    && final(self).buffer is Some && final(self).buffer.unwrap()@ == old(self).buffer.unwrap()@.update(
                    0,
                    EXT_SERIAL_ADDR,)
                )
            },
            final(self).i2c == old(self).i2c,
            !(old(self).state == At24State::Idle && old(self).buffer is Some) ==> final(self).i2c_ext
                == old(self).i2c_ext,
            old(self).state == At24State::Idle && old(self).buffer is Some ==> exists|answer: Result<(), I2cError>|
                #[trigger] started(
                    old(self).i2c_ext.requests(),
                    I2cRequest::WriteRead(old(self).buffer.unwrap()@.update(0, EXT_SERIAL_ADDR), 1, SERIAL_LEN, answer),
                    answer is Ok,
                ) == final(self).i2c_ext.requests() && (r is Ok <==> answer is Ok) && (answer matches Err(e)
                    ==> r == Err::<(), ErrorCode>(spec_i2c_error_code(e))),
    {
        if self.state != At24State::Idle {
            return Err(ErrorCode::BUSY);
        }
        self.read_ext(EXT_SERIAL_ADDR, SERIAL_LEN, At24State::ReadingSerial)
    }

    /// Start reading page `page_number` into `buf`. `INVAL` for a page past
    /// the end of memory; `RESERVE` when the shared buffer is out (another
    /// operation runs); an I2C error that keeps the transfer from starting
    /// comes back as its error code, with the page.
    pub fn read_page(&mut self, page_number: usize, buf: EEPROMPage) -> (r: Result<
        (),
        (ErrorCode, EEPROMPage),
    >)
        requires
            old(self).wf(),
            page_number * PAGE_SIZE <= usize::MAX,
        ensures
            final(self).wf(),
            final(self).flash_client == old(self).flash_client,
            final(self).meta_client == old(self).meta_client,
            page_number * PAGE_SIZE >= EEPROM_SIZE ==> (r matches Err((c, p)) && c == ErrorCode::INVAL
                && p.0@ == buf.0@) && final(self).buffer == old(self).buffer && final(self).state
                == old(self).state && final(self).client_page == old(self).client_page,
            page_number * PAGE_SIZE < EEPROM_SIZE && old(self).buffer is None ==> (r matches Err((c, p))
                && c == ErrorCode::RESERVE && p.0@ == buf.0@) && final(self).buffer is None
                && final(self).state == old(self).state && final(self).client_page
                == old(self).client_page,
            page_number * PAGE_SIZE < EEPROM_SIZE && old(self).buffer is Some ==> {
                &&& r is Ok ==> (final(self).state == At24State::ReadingPage && final(self).buffer is None
                    && final(self).client_page is Some && final(self).client_page.unwrap().0@ == buf.0@)
                &&& r matches Err((c, p)) ==> (is_i2c_code(c) && p.0@ == buf.0@ && final(self).state
                    == At24State::Idle && final(self).client_page == old(self).client_page
                    && final(self).buffer is Some && final(self).buffer.unwrap()@ == old(self).buffer.unwrap()@.update(
                    0,
                    (page_number * PAGE_SIZE) as u8,)
                )
            },
            final(self).i2c_ext == old(self).i2c_ext,
            !(page_number * PAGE_SIZE < EEPROM_SIZE && old(self).buffer is Some) ==> final(self).i2c
                == old(self).i2c,
            page_number * PAGE_SIZE < EEPROM_SIZE && old(self).buffer is Some ==> exists|answer: Result<(), I2cError>|
                #[trigger] started(
                    old(self).i2c.requests(),
                    I2cRequest::WriteRead(old(self).buffer.unwrap()@.update(0, (page_number * PAGE_SIZE) as u8), 1, PAGE_SIZE, answer),
                    answer is Ok,
                ) == final(self).i2c.requests() && (r is Ok <==> answer is Ok) && (answer matches Err(e)
                    ==> (r matches Err((c, _)) && c == spec_i2c_error_code(e))),
    {
        let address = page_number * PAGE_SIZE;
        if address >= EEPROM_SIZE {
            return Err((ErrorCode::INVAL, buf));
        }
        match self.buffer.take() {
            None => Err((ErrorCode::RESERVE, buf)),
            Some(mut rx) => {
                rx.set(0, address as u8);
                let ghost log0 = self.i2c.requests();
                let ghost sent = rx@;
                self.i2c.enable();
                self.state = At24State::ReadingPage;
                let res = self.i2c.write_read(rx, 1, PAGE_SIZE);
                let ghost answer = transfer_status(res);
                let ghost request = I2cRequest::WriteRead(sent, 1, PAGE_SIZE, answer);
                match res {
                    Err((error, back)) => {
                        self.buffer = Some(back);
                        self.i2c.disable();
                        self.state = At24State::Idle;
                        assert(started(log0, request, answer is Ok) =~= self.i2c.requests());
                        Err((i2c_error_code(error), buf))
                    },
                    Ok(()) => {
                        assert(started(log0, request, answer is Ok) =~= self.i2c.requests());
                        self.client_page = Some(buf);
                        Ok(())
                    },
                }
            },
        }
    }

    /// Start writing `buf` to page `page_number`: the shared buffer carries
    /// the address byte and the page. Errors as for `read_page`.
    pub fn write_page(&mut self, page_number: usize, buf: EEPROMPage) -> (r: Result<
        (),
        (ErrorCode, EEPROMPage),
    >)
        requires
            old(self).wf(),
            page_number * PAGE_SIZE <= usize::MAX,
        ensures
            final(self).wf(),
            final(self).flash_client == old(self).flash_client,
            final(self).meta_client == old(self).meta_client,
            page_number * PAGE_SIZE >= EEPROM_SIZE ==> (r matches Err((c, p)) && c == ErrorCode::INVAL
                && p.0@ == buf.0@) && final(self).buffer == old(self).buffer && final(self).state
                == old(self).state && final(self).client_page == old(self).client_page,
            page_number * PAGE_SIZE < EEPROM_SIZE && old(self).buffer is None ==> (r matches Err((c, p))
                && c == ErrorCode::RESERVE && p.0@ == buf.0@) && final(self).buffer is None
                && final(self).state == old(self).state && final(self).client_page
                == old(self).client_page,
            page_number * PAGE_SIZE < EEPROM_SIZE && old(self).buffer is Some ==> {
                &&& r is Ok ==> (final(self).state == At24State::WritingPage && final(self).buffer is None
                    && final(self).client_page is Some && final(self).client_page.unwrap().0@ == buf.0@)
                &&& r matches Err((c, p)) ==> (is_i2c_code(c) && p.0@ == buf.0@ && final(self).state
                    == At24State::Idle && final(self).client_page == old(self).client_page
                    && final(self).buffer is Some && final(self).buffer.unwrap()@ == page_write_image(
                    old(self).buffer.unwrap()@,
                    (page_number * PAGE_SIZE) as u8,
                    buf.0@,)
                )
            },
            final(self).i2c_ext == old(self).i2c_ext,
            !(page_number * PAGE_SIZE < EEPROM_SIZE && old(self).buffer is Some) ==> final(self).i2c
                == old(self).i2c,
            page_number * PAGE_SIZE < EEPROM_SIZE && old(self).buffer is Some ==> exists|answer: Result<(), I2cError>|
                #[trigger] started(
                    old(self).i2c.requests(),
                    I2cRequest::Write(page_write_image(old(self).buffer.unwrap()@, (page_number * PAGE_SIZE) as u8, buf.0@), 17, answer),
                    answer is Ok,
                ) == final(self).i2c.requests() && (r is Ok <==> answer is Ok) && (answer matches Err(e)
                    ==> (r matches Err((c, _)) && c == spec_i2c_error_code(e))),
    {
        let address = page_number * PAGE_SIZE;
        if address >= EEPROM_SIZE {
            return Err((ErrorCode::INVAL, buf));
        }
        match self.buffer.take() {
            None => Err((ErrorCode::RESERVE, buf)),
            Some(mut tx) => {
                let ghost orig = tx@;
                tx.set(0, address as u8);
                let write_len = if tx.len() - 1 < PAGE_SIZE {
                    tx.len() - 1
                } else {
                    PAGE_SIZE
                };
                let mut i: usize = 0;
                while i < write_len
                    invariant
                        write_len == PAGE_SIZE,
                        i <= write_len,
                        tx@.len() == orig.len(),
                        orig.len() >= MIN_BUFFER_LEN,
                        tx@[0] == address as u8,
                        forall|j: int| 0 <= j < i ==> tx@[j + 1] == buf.0@[j],
                        forall|j: int| i + 1 <= j < tx@.len() ==> tx@[j] == orig[j],
                    decreases write_len - i,
                {
                    tx.set(i + 1, buf.0[i]);
                    i = i + 1;
                }
                assert(tx@ =~= page_write_image(orig, address as u8, buf.0@));
                let ghost log0 = self.i2c.requests();
                let ghost sent = tx@;
                self.i2c.enable();
                self.state = At24State::WritingPage;
                let res = self.i2c.write(tx, write_len + 1);
                let ghost answer = transfer_status(res);
                let ghost request = I2cRequest::Write(sent, 17, answer);
                match res {
                    Err((error, back)) => {
                        self.buffer = Some(back);
                        self.i2c.disable();
                        self.state = At24State::Idle;
                        assert(started(log0, request, answer is Ok) =~= self.i2c.requests());
                        Err((i2c_error_code(error), buf))
                    },
                    Ok(()) => {
                        assert(started(log0, request, answer is Ok) =~= self.i2c.requests());
                        self.client_page = Some(buf);
                        Ok(())
                    },
                }
            },
        }
    }

    /// Start erasing page `page_number`, writing zeros over it. Errors as
    /// for `read_page`, without a page to hand back.
    pub fn erase_page(&mut self, page_number: usize) -> (r: Result<(), ErrorCode>)
        requires
            old(self).wf(),
            page_number * PAGE_SIZE <= usize::MAX,
        ensures
            final(self).wf(),
            final(self).flash_client == old(self).flash_client,
            final(self).meta_client == old(self).meta_client,
            final(self).client_page == old(self).client_page,
            page_number * PAGE_SIZE >= EEPROM_SIZE ==> r == Err::<(), ErrorCode>(ErrorCode::INVAL)
                && final(self).buffer == old(self).buffer && final(self).state == old(self).state,
            page_number * PAGE_SIZE < EEPROM_SIZE && old(self).buffer is None ==> r == Err::<
                (),
                ErrorCode,
            >(ErrorCode::RESERVE) && final(self).buffer is None && final(self).state
                == old(self).state,
            page_number * PAGE_SIZE < EEPROM_SIZE && old(self).buffer is Some ==> {
                &&& r is Ok ==> final(self).state == At24State::ErasingPage && final(self).buffer is None
                &&& r matches Err(c) ==> (is_i2c_code(c) && final(self).state == At24State::Idle
                    && final(self).buffer is Some && final(self).buffer.unwrap()@ == page_erase_image(
                    old(self).buffer.unwrap()@,
                    (page_number * PAGE_SIZE) as u8,)
                )
            },
            final(self).i2c_ext == old(self).i2c_ext,
            !(page_number * PAGE_SIZE < EEPROM_SIZE && old(self).buffer is Some) ==> final(self).i2c
                == old(self).i2c,
            page_number * PAGE_SIZE < EEPROM_SIZE && old(self).buffer is Some ==> exists|answer: Result<(), I2cError>|
                #[trigger] started(
                    old(self).i2c.requests(),
                    I2cRequest::Write(page_erase_image(old(self).buffer.unwrap()@, (page_number * PAGE_SIZE) as u8), 17, answer),
                    answer is Ok,
                ) == final(self).i2c.requests() && (r is Ok <==> answer is Ok) && (answer matches Err(e)
                    ==> r == Err::<(), ErrorCode>(spec_i2c_error_code(e))),
    {
        let address = page_number * PAGE_SIZE;
        if address >= EEPROM_SIZE {
            return Err(ErrorCode::INVAL);
        }
        match self.buffer.take() {
            None => Err(ErrorCode::RESERVE),
            Some(mut tx) => {
                let ghost orig = tx@;
                tx.set(0, address as u8);
                let write_len = if tx.len() - 1 < PAGE_SIZE {
                    tx.len() - 1
                } else {
                    PAGE_SIZE
                };
                let mut i: usize = 0;
                while i < write_len
                    invariant
                        write_len == PAGE_SIZE,
                        i <= write_len,
                        tx@.len() == orig.len(),
                        orig.len() >= MIN_BUFFER_LEN,
                        tx@[0] == address as u8,
                        forall|j: int| 1 <= j < i + 1 ==> tx@[j] == 0u8,
                        forall|j: int| i + 1 <= j < tx@.len() ==> tx@[j] == orig[j],
                    decreases write_len - i,
                {
                    tx.set(i + 1, 0);
                    i = i + 1;
                }
                assert(tx@ =~= page_erase_image(orig, address as u8));
                let ghost log0 = self.i2c.requests();
                let ghost sent = tx@;
                self.i2c.enable();
                self.state = At24State::ErasingPage;
                let res = self.i2c.write(tx, write_len + 1);
                let ghost answer = transfer_status(res);
                let ghost request = I2cRequest::Write(sent, 17, answer);
                match res {
                    Err((error, back)) => {
                        self.buffer = Some(back);
                        self.i2c.disable();
                        self.state = At24State::Idle;
                        assert(started(log0, request, answer is Ok) =~= self.i2c.requests());
                        Err(i2c_error_code(error))
                    },
                    Ok(()) => {
                        assert(started(log0, request, answer is Ok) =~= self.i2c.requests());
                        Ok(())
                    },
                }
            },
        }
    }

    /// A transfer finished with `status`, handing back `buffer`. The
    /// operation it belonged to ends: the capsule is idle again, takes the
    /// buffer back (a page read with no page to fill drops it) and makes the
    /// operation's callback, when its client is registered.
    pub fn command_complete(&mut self, buffer: Vec<u8>, status: Result<(), I2cError>) -> (r: At24Event)
        requires
            old(self).wf(),
            old(self).state != At24State::Idle ==> buffer@.len() >= MIN_BUFFER_LEN,
        ensures
            final(self).wf(),
            final(self).state == At24State::Idle,
            final(self).flash_client == old(self).flash_client,
            final(self).meta_client == old(self).meta_client,
            old(self).state == At24State::Idle ==> final(self).buffer == old(self).buffer
                && final(self).client_page == old(self).client_page && r is Silent,
            old(self).state == At24State::ReadingMac ==> {
                &&& final(self).buffer is Some && final(self).buffer.unwrap()@ == buffer@
                &&& final(self).client_page == old(self).client_page
                &&& old(self).meta_client ==> (r matches At24Event::Mac(m, s) && m@
                    == buffer@.subrange(0, 6) && s == meta_result(status))
                &&& !old(self).meta_client ==> r is Silent
            },
            old(self).state == At24State::ReadingSerial ==> {
                &&& final(self).buffer is Some && final(self).buffer.unwrap()@ == buffer@
                &&& final(self).client_page == old(self).client_page
                &&& old(self).meta_client ==> (r matches At24Event::Serial(m, s) && m@
                    == buffer@.subrange(0, 16) && s == meta_result(status))
                &&& !old(self).meta_client ==> r is Silent
            },
            old(self).state == At24State::ReadingPage ==> {
                &&& final(self).client_page is None
                &&& old(self).client_page is Some ==> (final(self).buffer is Some && final(self).buffer.unwrap()@
                    == buffer@)
                &&& old(self).client_page is None ==> final(self).buffer == old(self).buffer
                &&& old(self).client_page is Some && old(self).flash_client ==> (r matches At24Event::PageRead(
                    p,
                    s,
                ) && p.0@ == buffer@.subrange(0, 16) && s == flash_result(status))
                &&& !(old(self).client_page is Some && old(self).flash_client) ==> r is Silent
            },
            old(self).state == At24State::WritingPage ==> {
                &&& final(self).buffer is Some && final(self).buffer.unwrap()@ == buffer@
                &&& old(self).flash_client ==> final(self).client_page is None
                &&& !old(self).flash_client ==> final(self).client_page == old(self).client_page
                &&& old(self).flash_client && old(self).client_page is Some ==> (r matches At24Event::PageWritten(
                    p,
                    s,
                ) && p.0@ == old(self).client_page.unwrap().0@ && s == flash_result(status))
                &&& !(old(self).flash_client && old(self).client_page is Some) ==> r is Silent
            },
            old(self).state == At24State::ErasingPage ==> {
                &&& final(self).buffer is Some && final(self).buffer.unwrap()@ == buffer@
                &&& final(self).client_page == old(self).client_page
                &&& old(self).flash_client ==> (r matches At24Event::PageErased(s) && s
                    == flash_result(status))
                &&& !old(self).flash_client ==> r is Silent
            },
            old(self).state == At24State::Idle ==> final(self).i2c == old(self).i2c && final(self).i2c_ext == old(self).i2c_ext,
            old(self).state == At24State::ReadingMac || old(self).state == At24State::ReadingSerial
                ==> final(self).i2c == old(self).i2c && final(self).i2c_ext.requests() == old(self).i2c_ext.requests().push(I2cRequest::Disable),
            old(self).state == At24State::ReadingPage || old(self).state == At24State::WritingPage
                || old(self).state == At24State::ErasingPage ==> final(self).i2c_ext == old(self).i2c_ext && final(self).i2c.requests() == old(self).i2c.requests().push(
                I2cRequest::Disable,
            ),
    {
        let failed = match status {
            Err(_) => true,
            Ok(()) => false,
        };
        match self.state {
            At24State::ReadingMac => {
                self.state = At24State::Idle;
                self.i2c_ext.disable();
                let mut mac = [0u8; 6];
                let mut i: usize = 0;
                while i < EUI48_LEN
                    invariant
                        i <= EUI48_LEN,
                        buffer@.len() >= MIN_BUFFER_LEN,
                        forall|j: int| 0 <= j < i ==> mac@[j] == buffer@[j],
                    decreases EUI48_LEN - i,
                {
                    mac[i] = buffer[i];
                    i = i + 1;
                }
                assert(mac@ =~= buffer@.subrange(0, 6));
                self.buffer = Some(buffer);
                if self.meta_client {
                    At24Event::Mac(mac, if failed { Err(ErrorCode::FAIL) } else { Ok(()) })
                } else {
                    At24Event::Silent
                }
            },
            At24State::ReadingSerial => {
                self.state = At24State::Idle;
                self.i2c_ext.disable();
                let mut serial = [0u8; 16];
                let mut i: usize = 0;
                while i < SERIAL_LEN
                    invariant
                        i <= SERIAL_LEN,
                        buffer@.len() >= MIN_BUFFER_LEN,
                        forall|j: int| 0 <= j < i ==> serial@[j] == buffer@[j],
                    decreases SERIAL_LEN - i,
                {
                    serial[i] = buffer[i];
                    i = i + 1;
                }
                assert(serial@ =~= buffer@.subrange(0, 16));
                self.buffer = Some(buffer);
                if self.meta_client {
                    At24Event::Serial(serial, if failed { Err(ErrorCode::FAIL) } else { Ok(()) })
                } else {
                    At24Event::Silent
                }
            },
            At24State::ReadingPage => {
                self.state = At24State::Idle;
                self.i2c.disable();
                match self.client_page.take() {
                    Some(mut page) => {
                        let mut i: usize = 0;
                        while i < PAGE_SIZE
                            invariant
                                i <= PAGE_SIZE,
                                buffer@.len() >= MIN_BUFFER_LEN,
                                forall|j: int| 0 <= j < i ==> page.0@[j] == buffer@[j],
                            decreases PAGE_SIZE - i,
                        {
                            page.0[i] = buffer[i];
                            i = i + 1;
                        }
                        assert(page.0@ =~= buffer@.subrange(0, 16));
                        self.buffer = Some(buffer);
                        if self.flash_client {
                            At24Event::PageRead(
                                page,
                                if failed { Err(FlashError::FlashError) } else { Ok(()) },
                            )
                        } else {
                            At24Event::Silent
                        }
                    },
                    None => At24Event::Silent,
                }
            },
            At24State::WritingPage => {
                self.state = At24State::Idle;
                self.buffer = Some(buffer);
                self.i2c.disable();
                if self.flash_client {
                    match self.client_page.take() {
                        Some(page) => At24Event::PageWritten(
                            page,
                            if failed { Err(FlashError::FlashError) } else { Ok(()) },
                        ),
                        None => At24Event::Silent,
                    }
                } else {
                    At24Event::Silent
                }
            },
            At24State::ErasingPage => {
                self.state = At24State::Idle;
                self.buffer = Some(buffer);
                self.i2c.disable();
                if self.flash_client {
                    At24Event::PageErased(if failed { Err(FlashError::FlashError) } else { Ok(()) })
                } else {
                    At24Event::Silent
                }
            },
            At24State::Idle => At24Event::Silent,
        }
    }
}

} // verus!
