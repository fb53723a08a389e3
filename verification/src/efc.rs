//! Embedded Flash Controller of the SAM V71: 2 MB of flash in 4096 pages of
//! 512 bytes.
//!
//! Flash commands go through the ROM's in-application-programming entry,
//! from code running out of SRAM. The driver decides which commands to issue
//! and with which arguments, and interprets the status they return; the
//! board issues them and performs the cache, interrupt, bus matrix and page
//! latch accesses around a page write.
use vstd::prelude::*;
use crate::error::ErrorCode;

verus! {

/// EFC peripheral identifier.
pub const EFC_PID: u32 = 6;

/// Flash base address (physical, not aliased).
pub const FLASH_BASE: usize = 0x0040_0000;

/// Flash page size in bytes.
pub const PAGE_SIZE: usize = 512;

/// Number of pages.
pub const PAGE_COUNT: usize = 4096;

/// Key that every command word carries.
pub const FKEY: u32 = 0x5A;

/// Write page (latch to flash, no erase).
pub const CMD_WP: u32 = 0x01;

/// Erase pages.
pub const CMD_EPA: u32 = 0x07;

/// Clear lock bit.
pub const CMD_CLB: u32 = 0x09;

/// Erase-pages size selector for 16 pages.
pub const EPA_ERASE_SIZE: u32 = 2;

/// Pages per erase block.
pub const EPA_PAGE_ALIGN: u32 = 16;

/// Pages per lock region.
pub const LOCK_REGION_PAGES: usize = 32;

/// Address of the ROM's in-application-programming entry pointer.
pub const IAP_ENTRY_ADDR: usize = 0x0080_0008;

/// Flash mode register value during programming: 6 wait states, code loop
/// optimisation off.
pub const FMR_PROGRAMMING: u32 = 0x0000_0600;

/// Vector table address in SRAM while a page is programmed.
pub const VTOR_SRAM: u32 = 0x2040_0000;

/// Bus matrix slave configuration with no default master.
pub const SCFG_NO_DEFAULT_MASTER: u32 = 0x0000_01FF;

/// Status bits that signal a failed command: command error, lock error,
/// flash error.
pub const FSR_ERRORS: u32 = 0x0E;

/// Errors a flash operation reports to its client.
#[derive(Clone, Copy, Debug, PartialEq, Eq, Structural)]
pub enum FlashError {
    FlashError,
}

/// A page of flash.
#[derive(Debug)]
pub struct Sam71Page(pub [u8; 512]);

impl Sam71Page {
    /// A zeroed page.
    pub fn default() -> (r: Sam71Page)
        ensures
            forall|i: int| 0 <= i < 512 ==> r.0@[i] == 0,
    {
        Sam71Page([0u8; 512])
    }

    /// Byte `idx` of the page.
    pub fn index(&self, idx: usize) -> (r: u8)
        requires
            idx < PAGE_SIZE,
        ensures
            r == self.0@[idx as int],
    {
        self.0[idx]
    }

    /// Set byte `idx` of the page.
    pub fn set(&mut self, idx: usize, value: u8)
        requires
            idx < PAGE_SIZE,
        ensures
            final(self).0@ == old(self).0@.update(idx as int, value),
    {
        self.0[idx] = value;
    }

    /// The page's bytes.
    pub fn as_slice(&self) -> (r: &[u8])
        ensures
            r@ == self.0@,
    {
        self.0.as_slice()
    }
}

/// The command word for the ROM's programming entry: key, 16-bit
/// argument, command.
pub open spec fn spec_fcr(cmd: u32, arg: u32) -> u32 {
    (FKEY << 24u32) | ((arg & 0xFFFF) << 8u32) | (cmd & 0xFF)
}

/// The command word for the ROM's programming entry: key, 16-bit argument,
/// command.
pub fn fcr_value(cmd: u32, arg: u32) -> (r: u32)
    ensures
        r == spec_fcr(cmd, arg),
{
    (FKEY << 24u32) | ((arg & 0xFFFF) << 8u32) | (cmd & 0xFF)
}

/// The erase-pages argument for the 16-page block holding `page`.
pub open spec fn spec_epa_arg(page: u32) -> u32 {
    (page & !15u32) | EPA_ERASE_SIZE
}

/// The erase-pages argument for the 16-page block holding `page_number`.
pub fn erase_block_arg(page_number: usize) -> (r: u32)
    requires
        page_number < PAGE_COUNT,
    ensures
        r == spec_epa_arg(page_number as u32),
{
    ((page_number as u32) & !(EPA_PAGE_ALIGN - 1)) | EPA_ERASE_SIZE
}

/// The lock region holding `page_number`.
pub fn lock_region(page_number: usize) -> (r: u32)
    requires
        page_number < PAGE_COUNT,
    ensures
        r == page_number / 32,
{
    (page_number / LOCK_REGION_PAGES) as u32
}

/// The flash address of `page_number`.
pub fn page_address(page_number: usize) -> (r: usize)
    requires
        page_number < PAGE_COUNT,
    ensures
        r == FLASH_BASE + page_number * PAGE_SIZE,
{
    FLASH_BASE + page_number * PAGE_SIZE
}

/// The outcome of a command, from the status it returned.
pub open spec fn spec_flash_result(fsr: u32) -> Result<(), FlashError> {
    if fsr & FSR_ERRORS != 0 {
        Err(FlashError::FlashError)
    } else {
        Ok(())
    }
}

/// The outcome of a command, from the status it returned.
pub fn flash_result(fsr: u32) -> (r: Result<(), FlashError>)
    ensures
        r == spec_flash_result(fsr),
{
    if fsr & FSR_ERRORS != 0 {
        Err(FlashError::FlashError)
    } else {
        Ok(())
    }
}

/// Whether every word of a page reads as erased (all ones).
pub open spec fn spec_is_erased(words: Seq<u32>) -> bool {
    forall|i: int| 0 <= i < words.len() ==> words[i] == 0xFFFF_FFFFu32
}

/// Whether every word of a page reads as erased (all ones).
pub fn page_is_erased(words: &[u32]) -> (r: bool)
    ensures
        r == spec_is_erased(words@),
{
    let mut i: usize = 0;
    while i < words.len()
        invariant
            i <= words@.len(),
            forall|j: int| 0 <= j < i ==> words@[j] == 0xFFFF_FFFFu32,
        decreases words@.len() - i,
    {
        if words[i] != 0xFFFF_FFFF {
            return false;
        }
        i = i + 1;
    }
    true
}

/// Data cache geometry from the cache size identification register: the
/// highest set index and the highest way index.
pub fn dcache_geometry(ccsidr: u32) -> (r: (u32, u32))
    ensures
        r.0 == (ccsidr >> 13u32) & 0x7FFF,
        r.1 == (ccsidr >> 3u32) & 0x3FF,
{
    ((ccsidr >> 13u32) & 0x7FFF, (ccsidr >> 3u32) & 0x3FF)
}

/// The set/way operand that invalidates one data cache line.
pub fn dcache_set_way(way: u32, set: u32) -> (r: u32)
    ensures
        r == (way << 30u32) | (set << 5u32),
{
    (way << 30u32) | (set << 5u32)
}

/// How a page write is to be carried out.
#[derive(Clone, Copy, Debug, PartialEq, Eq, Structural)]
pub struct LatchPlan {
    /// Flash address the page latch is filled through.
    pub page_addr: usize,
    /// Whether the instruction / data caches are on (and so must be turned
    /// off and back on around the write).
    pub icache_on: bool,
    pub dcache_on: bool,
    /// Unlock command for the page's lock region.
    pub clb_fcr: u32,
    /// Write-page command.
    pub wp_fcr: u32,
    /// The cache control register as found.
    pub ccr: u32,
}

/// The plan for writing `page_number`, given the cache control register.
pub open spec fn spec_latch_plan(page_number: usize, ccr: u32) -> LatchPlan {
    LatchPlan {
        page_addr: (FLASH_BASE + page_number * PAGE_SIZE) as usize,
        icache_on: ccr & (1u32 << 17u32) != 0,
        dcache_on: ccr & (1u32 << 16u32) != 0,
        clb_fcr: spec_fcr(CMD_CLB, (page_number / 32) as u32),
        wp_fcr: spec_fcr(CMD_WP, page_number as u32),
        ccr,
    }
}

/// The plan for writing `page_number`, given the cache control register.
pub fn latch_plan(page_number: usize, ccr: u32) -> (r: LatchPlan)
    requires
        page_number < PAGE_COUNT,
    ensures
        r == spec_latch_plan(page_number, ccr),
{
    LatchPlan {
        page_addr: page_address(page_number),
        icache_on: ccr & (1u32 << 17u32) != 0,
        dcache_on: ccr & (1u32 << 16u32) != 0,
        clb_fcr: fcr_value(CMD_CLB, lock_region(page_number)),
        wp_fcr: fcr_value(CMD_WP, page_number as u32),
        ccr,
    }
}

/// Bus matrix slave configuration registers of the flash.
pub const MATRIX_SCFG2: u32 = 0x4008_8048;
pub const MATRIX_SCFG3: u32 = 0x4008_804C;

/// Instruction and data cache enable bits of the cache control register.
pub const CCR_IC: u32 = 1 << 17;
pub const CCR_DC: u32 = 1 << 16;

/// One step of writing a page, for the board to perform from SRAM, in
/// order. Saved values are restored by the matching restore step.
#[derive(Clone, Copy, Debug, PartialEq, Eq, Structural)]
pub enum EfcStep {
    /// Write the cache control register.
    CcrWrite(u32),
    /// Read-modify-write of the cache control register: clear, or set,
    /// these bits.
    CcrClear(u32),
    CcrSet(u32),
    /// Data and instruction synchronisation barriers.
    Dsb,
    Isb,
    /// Invalidate the whole instruction cache.
    InvalidateICache,
    /// Select the level-1 data cache for the size identification register.
    SelectDCache,
    /// Invalidate every data cache line: ways `0..=ways` of sets
    /// `0..=sets`, each by set and way (`dcache_set_way`).
    InvalidateDCache(u32, u32),
    /// Save the flash mode register, then write it.
    SaveAndWriteFmr(u32),
    /// Read the flash status register (for its side effect).
    ReadFsr,
    /// Call the ROM's programming entry with this command word.
    Iap(u32),
    /// Save the vector table offset, then move the table.
    SaveAndWriteVtor(u32),
    /// Save the enabled interrupts, then disable them all.
    SaveAndDisableIrqs,
    /// Mask, unmask interrupts at the processor.
    MaskInterrupts,
    UnmaskInterrupts,
    /// Save a bus matrix slave configuration, then remove its default
    /// master.
    SaveAndClearDefaultMaster(u32),
    /// Copy the page's 128 words to this flash address (filling the latch).
    CopyPage(usize),
    /// Restore what a save step saved.
    RestoreVtor,
    RestoreIrqs,
    RestoreScfg(u32),
    RestoreFmr,
}

/// The steps that write a page, for `plan` and the cache size
/// identification register `ccsidr`: turn the caches off and invalidate
/// them; program the flash with six wait states; unlock the page's region;
/// move the vector table to SRAM and silence interrupts so that nothing
/// fetches from flash; give the flash slave no default master; fill the page
/// latch and write the page; then restore everything in reverse and turn
/// the caches back on (the instruction cache invalidated first).
pub open spec fn spec_latch_steps(plan: LatchPlan, ccsidr: u32) -> Seq<EfcStep> {
    (if plan.icache_on {
        seq![EfcStep::CcrWrite(plan.ccr & !CCR_IC), EfcStep::Dsb, EfcStep::Isb]
    } else {
        Seq::empty()
    }) + seq![EfcStep::InvalidateICache, EfcStep::Dsb, EfcStep::Isb] + (if plan.dcache_on {
        seq![
            EfcStep::CcrClear(CCR_DC),
            EfcStep::Dsb,
            EfcStep::SelectDCache,
            EfcStep::Dsb,
            EfcStep::InvalidateDCache((ccsidr >> 13u32) & 0x7FFF, (ccsidr >> 3u32) & 0x3FF),
            EfcStep::Dsb,
        ]
    } else {
        Seq::empty()
    }) + seq![
        EfcStep::SaveAndWriteFmr(FMR_PROGRAMMING),
        EfcStep::ReadFsr,
        EfcStep::ReadFsr,
        EfcStep::Dsb,
        EfcStep::Isb,
        EfcStep::Iap(plan.clb_fcr),
        EfcStep::Dsb,
        EfcStep::Isb,
        EfcStep::SaveAndWriteVtor(VTOR_SRAM),
        EfcStep::SaveAndDisableIrqs,
        EfcStep::MaskInterrupts,
        EfcStep::Dsb,
        EfcStep::Isb,
        EfcStep::SaveAndClearDefaultMaster(MATRIX_SCFG2),
        EfcStep::SaveAndClearDefaultMaster(MATRIX_SCFG3),
        EfcStep::CopyPage(plan.page_addr),
        EfcStep::Dsb,
        EfcStep::Iap(plan.wp_fcr),
        EfcStep::RestoreVtor,
        EfcStep::RestoreIrqs,
        EfcStep::UnmaskInterrupts,
        EfcStep::RestoreScfg(MATRIX_SCFG2),
        EfcStep::RestoreScfg(MATRIX_SCFG3),
        EfcStep::RestoreFmr,
        EfcStep::Dsb,
        EfcStep::Isb,
    ] + (if plan.icache_on {
        seq![
            EfcStep::InvalidateICache,
            EfcStep::Dsb,
            EfcStep::Isb,
            EfcStep::CcrSet(CCR_IC),
            EfcStep::Dsb,
            EfcStep::Isb,
        ]
    } else {
        Seq::empty()
    }) + (if plan.dcache_on {
        seq![EfcStep::CcrSet(CCR_DC), EfcStep::Dsb]
    } else {
        Seq::empty()
    })
}

impl LatchPlan {
    /// The steps that carry the plan out; the status of the last command
    /// (the page write) is the outcome.
    pub fn steps(&self, ccsidr: u32) -> (r: Vec<EfcStep>)
        ensures
            r@ == spec_latch_steps(*self, ccsidr),
    {
        let mut r: Vec<EfcStep> = Vec::new();
        if self.icache_on {
            r.push(EfcStep::CcrWrite(self.ccr & !CCR_IC));
            r.push(EfcStep::Dsb);
            r.push(EfcStep::Isb);
        }
        r.push(EfcStep::InvalidateICache);
        r.push(EfcStep::Dsb);
        r.push(EfcStep::Isb);
        if self.dcache_on {
            let (sets, ways) = dcache_geometry(ccsidr);
            r.push(EfcStep::CcrClear(CCR_DC));
            r.push(EfcStep::Dsb);
            r.push(EfcStep::SelectDCache);
            r.push(EfcStep::Dsb);
            r.push(EfcStep::InvalidateDCache(sets, ways));
            r.push(EfcStep::Dsb);
        }
        r.push(EfcStep::SaveAndWriteFmr(FMR_PROGRAMMING));
        r.push(EfcStep::ReadFsr);
        r.push(EfcStep::ReadFsr);
        r.push(EfcStep::Dsb);
        r.push(EfcStep::Isb);
        r.push(EfcStep::Iap(self.clb_fcr));
        r.push(EfcStep::Dsb);
        r.push(EfcStep::Isb);
        r.push(EfcStep::SaveAndWriteVtor(VTOR_SRAM));
        r.push(EfcStep::SaveAndDisableIrqs);
        r.push(EfcStep::MaskInterrupts);
        r.push(EfcStep::Dsb);
        r.push(EfcStep::Isb);
        r.push(EfcStep::SaveAndClearDefaultMaster(MATRIX_SCFG2));
        r.push(EfcStep::SaveAndClearDefaultMaster(MATRIX_SCFG3));
        r.push(EfcStep::CopyPage(self.page_addr));
        r.push(EfcStep::Dsb);
        r.push(EfcStep::Iap(self.wp_fcr));
        r.push(EfcStep::RestoreVtor);
        r.push(EfcStep::RestoreIrqs);
        r.push(EfcStep::UnmaskInterrupts);
        r.push(EfcStep::RestoreScfg(MATRIX_SCFG2));
        r.push(EfcStep::RestoreScfg(MATRIX_SCFG3));
        r.push(EfcStep::RestoreFmr);
        r.push(EfcStep::Dsb);
        r.push(EfcStep::Isb);
        if self.icache_on {
            r.push(EfcStep::InvalidateICache);
            r.push(EfcStep::Dsb);
            r.push(EfcStep::Isb);
            r.push(EfcStep::CcrSet(CCR_IC));
            r.push(EfcStep::Dsb);
            r.push(EfcStep::Isb);
        }
        if self.dcache_on {
            r.push(EfcStep::CcrSet(CCR_DC));
            r.push(EfcStep::Dsb);
        }
        assert(r@ =~= spec_latch_steps(*self, ccsidr));
        r
    }
}

/// The commands a page write or erase starts with when the page is not
/// already erased: unlock its lock region, then erase its 16-page block.
#[derive(Clone, Copy, Debug, PartialEq, Eq, Structural)]
pub struct ErasePlan {
    pub clb_fcr: u32,
    pub epa_fcr: u32,
}

/// The erase commands for `page_number`.
pub open spec fn spec_erase_plan(page_number: usize) -> ErasePlan {
    ErasePlan {
        clb_fcr: spec_fcr(CMD_CLB, (page_number / 32) as u32),
        epa_fcr: spec_fcr(CMD_EPA, spec_epa_arg(page_number as u32)),
    }
}

/// The erase commands for `page_number`.
pub fn erase_plan(page_number: usize) -> (r: ErasePlan)
    requires
        page_number < PAGE_COUNT,
    ensures
        r == spec_erase_plan(page_number),
{
    ErasePlan {
        clb_fcr: fcr_value(CMD_CLB, lock_region(page_number)),
        epa_fcr: fcr_value(CMD_EPA, erase_block_arg(page_number)),
    }
}

/// Decide how to write a page, given its current contents: `INVAL` beyond
/// the last page; otherwise erase its block first unless it is already
/// erased, then fill the latch and write.
pub fn plan_write(page_number: usize, current: &[u32], ccr: u32) -> (r: Result<
    (Option<ErasePlan>, LatchPlan),
    ErrorCode,
>)
    ensures
        page_number >= PAGE_COUNT ==> r == Err::<(Option<ErasePlan>, LatchPlan), ErrorCode>(
            ErrorCode::INVAL,
        ),
        page_number < PAGE_COUNT ==> r == Ok::<(Option<ErasePlan>, LatchPlan), ErrorCode>(
            (
                if spec_is_erased(current@) {
                    None
                } else {
                    Some(spec_erase_plan(page_number))
                },
                spec_latch_plan(page_number, ccr),
            ),
        ),
{
    if page_number >= PAGE_COUNT {
        return Err(ErrorCode::INVAL);
    }
    let erase = if page_is_erased(current) {
        None
    } else {
        Some(erase_plan(page_number))
    };
    Ok((erase, latch_plan(page_number, ccr)))
}

/// Decide how to erase a page, given its current contents: `INVAL` beyond
/// the last page; nothing to do (success) if it is already erased, which
/// spares the other pages of its block; else unlock and erase the block.
pub fn plan_erase(page_number: usize, current: &[u32]) -> (r: Result<Option<ErasePlan>, ErrorCode>)
    ensures
        page_number >= PAGE_COUNT ==> r == Err::<Option<ErasePlan>, ErrorCode>(ErrorCode::INVAL),
        page_number < PAGE_COUNT ==> r == Ok::<Option<ErasePlan>, ErrorCode>(
            if spec_is_erased(current@) {
                None
            } else {
                Some(spec_erase_plan(page_number))
            },
        ),
{
    if page_number >= PAGE_COUNT {
        return Err(ErrorCode::INVAL);
    }
    if page_is_erased(current) {
        Ok(None)
    } else {
        Ok(Some(erase_plan(page_number)))
    }
}

/// Decide where to read a page from: `INVAL` beyond the last page.
pub fn page_location(page_number: usize) -> (r: Result<usize, ErrorCode>)
    ensures
        page_number >= PAGE_COUNT ==> r == Err::<usize, ErrorCode>(ErrorCode::INVAL),
        page_number < PAGE_COUNT ==> r == Ok::<usize, ErrorCode>(
            (FLASH_BASE + page_number * PAGE_SIZE) as usize,
        ),
{
    if page_number >= PAGE_COUNT {
        return Err(ErrorCode::INVAL);
    }
    Ok(page_address(page_number))
}

/// The flash mode register value set at start-up: 6 wait states for a
/// 150 MHz bus clock, code loop optimisation off.
pub fn init_fmr() -> (r: u32)
    ensures
        r == 0x600,
{
    assert((6u32 & 0xF) << 8u32 == 0x600) by (bit_vector);
    (6u32 & 0xF) << 8u32
}

/// The flash controller, as its client sees it.
pub struct Efc {
    /// Whether a flash client is registered.
    pub client: bool,
}

impl Efc {
    pub fn new() -> (r: Efc)
        ensures
            !r.client,
    {
        Efc { client: false }
    }

    /// The flash mode register value to write at start-up.
    pub fn init(&self) -> (r: u32)
        ensures
            r == 0x600,
    {
        init_fmr()
    }

    /// Commands complete synchronously; there is no interrupt to handle.
    pub fn handle_interrupt(&self) {
    }

    pub fn set_client(&mut self)
        ensures
            final(self).client,
    {
        self.client = true;
    }

    /// Read page `page_number` into `buf`, given the page's bytes in flash
    /// `flash_page`: `INVAL` beyond the last page, the page handed back.
    /// Otherwise the page is filled and, with a client, handed to it with
    /// success.
    pub fn read_page(&self, page_number: usize, buf: Sam71Page, flash_page: &[u8]) -> (r: Result<
        Option<(Sam71Page, Result<(), FlashError>)>,
        (ErrorCode, Sam71Page),
    >)
        requires
            page_number < PAGE_COUNT ==> flash_page@.len() == PAGE_SIZE,
        ensures
            page_number >= PAGE_COUNT ==> (r matches Err((e, b)) && e == ErrorCode::INVAL && b.0@
                == buf.0@),
            page_number < PAGE_COUNT && self.client ==> (r matches Ok(Some((b, s))) && b.0@
                == flash_page@ && s is Ok),
            page_number < PAGE_COUNT && !self.client ==> r matches Ok(None),
    {
        if page_number >= PAGE_COUNT {
            return Err((ErrorCode::INVAL, buf));
        }
        let mut page = buf;
        let mut i: usize = 0;
        while i < PAGE_SIZE
            invariant
                i <= PAGE_SIZE,
                flash_page@.len() == PAGE_SIZE,
                forall|j: int| 0 <= j < i ==> page.0@[j] == flash_page@[j],
            decreases PAGE_SIZE - i,
        {
            page.0[i] = flash_page[i];
            i = i + 1;
        }
        assert(page.0@ =~= flash_page@);
        if self.client {
            Ok(Some((page, Ok(()))))
        } else {
            Ok(None)
        }
    }

    /// Start writing `buf` to page `page_number`, given the page's words as
    /// they read now and the cache control register: `INVAL` beyond the
    /// last page, the page handed back; otherwise the commands to run
    /// (erasing the block first unless the page is already erased), with
    /// the page to write.
    pub fn write_page(&self, page_number: usize, buf: Sam71Page, current: &[u32], ccr: u32) -> (r: Result<
        (Option<ErasePlan>, LatchPlan, Sam71Page),
        (ErrorCode, Sam71Page),
    >)
        ensures
            page_number >= PAGE_COUNT ==> (r matches Err((e, b)) && e == ErrorCode::INVAL && b.0@
                == buf.0@),
            page_number < PAGE_COUNT ==> (r matches Ok((erase, latch, b)) && b.0@ == buf.0@
                && erase == (if spec_is_erased(current@) {
                None
            } else {
                Some(spec_erase_plan(page_number))
            }) && latch == spec_latch_plan(page_number, ccr)),
    {
        match plan_write(page_number, current, ccr) {
            Err(e) => Err((e, buf)),
            Ok((erase, latch)) => Ok((erase, latch, buf)),
        }
    }

    /// A page write finished with status `fsr`: the page goes back to the
    /// client, if any, with the outcome.
    pub fn write_done(&self, buf: Sam71Page, fsr: u32) -> (r: Option<(Sam71Page, Result<(), FlashError>)>)
        ensures
            self.client ==> (r matches Some((b, s)) && b.0@ == buf.0@ && s == spec_flash_result(fsr)),
            !self.client ==> r is None,
    {
        if self.client {
            Some((buf, flash_result(fsr)))
        } else {
            None
        }
    }

    /// Start erasing page `page_number`, given its words as they read now:
    /// `INVAL` beyond the last page; an already erased page is left alone
    /// (sparing its block) and the client, if any, told of success at once;
    /// otherwise the commands to run.
    pub fn erase_page(&self, page_number: usize, current: &[u32]) -> (r: Result<
        (Option<ErasePlan>, Option<Result<(), FlashError>>),
        ErrorCode,
    >)
        ensures
            page_number >= PAGE_COUNT ==> r == Err::<
                (Option<ErasePlan>, Option<Result<(), FlashError>>),
                ErrorCode,
            >(ErrorCode::INVAL),
            page_number < PAGE_COUNT && spec_is_erased(current@) ==> r == Ok::<
                (Option<ErasePlan>, Option<Result<(), FlashError>>),
                ErrorCode,
            >((None, if self.client { Some(Ok(())) } else { None })),
            page_number < PAGE_COUNT && !spec_is_erased(current@) ==> r == Ok::<
                (Option<ErasePlan>, Option<Result<(), FlashError>>),
                ErrorCode,
            >((Some(spec_erase_plan(page_number)), None)),
    {
        match plan_erase(page_number, current) {
            Err(e) => Err(e),
            Ok(None) => Ok((None, if self.client { Some(Ok(())) } else { None })),
            Ok(Some(plan)) => Ok((Some(plan), None)),
        }
    }

    /// A block erase finished with status `fsr`: the client, if any, gets
    /// the outcome.
    pub fn erase_done(&self, fsr: u32) -> (r: Option<Result<(), FlashError>>)
        ensures
            self.client ==> r == Some(spec_flash_result(fsr)),
            !self.client ==> r is None,
    {
        if self.client {
            Some(flash_result(fsr))
        } else {
            None
        }
    }
}

/// The argument field (bits 8 to 23) of a command word.
pub open spec fn fcr_arg_field(w: u32) -> u32 {
    (w >> 8u32) & 0xFFFF
}

proof fn lemma_erase_words(page: u32)
    by (bit_vector)
    requires
        page < 4096,
    ensures
        spec_fcr(CMD_EPA, spec_epa_arg(page)) >> 24u32 == 0x5A,
        spec_fcr(CMD_EPA, spec_epa_arg(page)) & 0xFF == CMD_EPA,
        fcr_arg_field(spec_fcr(CMD_EPA, spec_epa_arg(page))) & 3 == 2,
        fcr_arg_field(spec_fcr(CMD_EPA, spec_epa_arg(page))) & 0xFFFC <= page,
        page < (fcr_arg_field(spec_fcr(CMD_EPA, spec_epa_arg(page))) & 0xFFFC) + 16,
        (fcr_arg_field(spec_fcr(CMD_EPA, spec_epa_arg(page))) & 0xFFFC) % 16 == 0,
        spec_fcr(CMD_CLB, page / 32) >> 24u32 == 0x5A,
        spec_fcr(CMD_CLB, page / 32) & 0xFF == CMD_CLB,
        fcr_arg_field(spec_fcr(CMD_CLB, page / 32)) == page / 32,
{
}

/// Erasing a page unlocks its lock region and erases the 16-page block that
/// holds it: both command words carry the key; the clear-lock argument is
/// the page's lock region; the erase-pages argument selects 16 pages
/// (size field 2) starting at a multiple of 16 no later than the page and
/// less than 16 pages before it, inside that same lock region.
pub proof fn erase_targets_block_of_page(page_number: usize)
    requires
        page_number < PAGE_COUNT,
    ensures
        ({
            let plan = spec_erase_plan(page_number);
            let first = fcr_arg_field(plan.epa_fcr) & 0xFFFC;
            &&& plan.epa_fcr >> 24u32 == FKEY
            &&& plan.epa_fcr & 0xFF == CMD_EPA
            &&& fcr_arg_field(plan.epa_fcr) & 3 == 2
            &&& first % 16 == 0
            &&& first <= page_number < first + 16
            &&& plan.clb_fcr >> 24u32 == FKEY
            &&& plan.clb_fcr & 0xFF == CMD_CLB
            &&& fcr_arg_field(plan.clb_fcr) == page_number / 32
            &&& first / 32 == page_number / 32
        }),
{
    let page = page_number as u32;
    lemma_erase_words(page);
    assert((page_number / 32) as u32 == page / 32);
}

} // verus!
