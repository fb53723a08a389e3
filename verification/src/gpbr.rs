//! General-purpose backup registers: eight words that survive a software
//! reset, in a block at 0x400E_1890.
use vstd::prelude::*;

verus! {

/// Address of the first backup register.
pub const GPBR_BASE: u32 = 0x400E_1890;

/// One of the eight backup registers.
#[derive(Clone, Copy, Debug, PartialEq, Eq, Structural)]
pub enum GpbrIndex {
    Gpbr0,
    Gpbr1,
    Gpbr2,
    Gpbr3,
    Gpbr4,
    Gpbr5,
    Gpbr6,
    Gpbr7,
}

/// The register's number.
pub open spec fn spec_index_number(i: GpbrIndex) -> nat {
    match i {
        GpbrIndex::Gpbr0 => 0,
        GpbrIndex::Gpbr1 => 1,
        GpbrIndex::Gpbr2 => 2,
        GpbrIndex::Gpbr3 => 3,
        GpbrIndex::Gpbr4 => 4,
        GpbrIndex::Gpbr5 => 5,
        GpbrIndex::Gpbr6 => 6,
        GpbrIndex::Gpbr7 => 7,
    }
}

/// The register's address: a word per register from the base.
pub open spec fn spec_gpbr_address(i: GpbrIndex) -> u32 {
    (GPBR_BASE + 4 * spec_index_number(i)) as u32
}

impl GpbrIndex {
    /// The register's number.
    pub fn number(self) -> (r: u32)
        ensures
            r == spec_index_number(self),
    {
        match self {
            GpbrIndex::Gpbr0 => 0,
            GpbrIndex::Gpbr1 => 1,
            GpbrIndex::Gpbr2 => 2,
            GpbrIndex::Gpbr3 => 3,
            GpbrIndex::Gpbr4 => 4,
            GpbrIndex::Gpbr5 => 5,
            GpbrIndex::Gpbr6 => 6,
            GpbrIndex::Gpbr7 => 7,
        }
    }
}

/// A write of `value` to the register at `address`.
#[derive(Clone, Copy, Debug, PartialEq, Eq, Structural)]
pub struct GpbrWrite {
    pub address: u32,
    pub value: u32,
}

/// The backup register block.
pub struct Gpbr {}

impl Gpbr {
    pub fn new() -> (r: Gpbr) {
        Gpbr {  }
    }

    /// The address of register `index`.
    pub fn address(&self, index: GpbrIndex) -> (r: u32)
        ensures
            r == spec_gpbr_address(index),
    {
        GPBR_BASE + 4 * index.number()
    }

    /// Store `value` in register `index`: the write to perform.
    pub fn set(&self, index: GpbrIndex, value: u32) -> (r: GpbrWrite)
        ensures
            r == (GpbrWrite { address: spec_gpbr_address(index), value }),
    {
        GpbrWrite { address: self.address(index), value }
    }

    /// Read register `index`: the address to read.
    pub fn get(&self, index: GpbrIndex) -> (r: u32)
        ensures
            r == spec_gpbr_address(index),
    {
        self.address(index)
    }
}

/// Distinct backup registers never share an address, so a value stored in
/// one is read back from it alone, whatever is stored in the others.
pub proof fn backup_registers_distinct(a: GpbrIndex, b: GpbrIndex)
    ensures
        a != b ==> spec_gpbr_address(a) != spec_gpbr_address(b),
        spec_gpbr_address(a) - GPBR_BASE == 4 * spec_index_number(a),
        spec_index_number(a) < 8,
{
}

} // verus!
