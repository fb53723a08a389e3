//! GPIO controller of the SAM V71.
//!
//! Pins are grouped in ports A to E of up to 32 pins; a pin is named by its
//! port and its bit in the port's registers ("PA00" to "PA31" for the
//! first port). Port B has pins 0 to 9, 12 and 13 only, port E pins 0 to 5.
//! Each register of a port is written through set, clear and toggle views
//! of its bits; operations yield those writes for the board to perform, and
//! reads take the register value.
use vstd::prelude::*;

verus! {

/// Base address of the first port.
pub const BASE_ADDRESS: usize = 0x400E_0E00;

/// Distance between ports.
pub const SIZE: usize = 0x200;

/// Peripheral functions a pin can be given, besides plain GPIO.
#[derive(Clone, Copy, Debug, PartialEq, Eq, Structural)]
pub enum PeripheralFunction {
    A,
    B,
    C,
    D,
}

/// The function's selector, 0 to 3.
pub open spec fn spec_function_number(f: PeripheralFunction) -> u32 {
    match f {
        PeripheralFunction::A => 0,
        PeripheralFunction::B => 1,
        PeripheralFunction::C => 2,
        PeripheralFunction::D => 3,
    }
}

/// Name of a GPIO pin: port letter and bit.
#[derive(Clone, Copy, Debug, PartialEq, Eq, Structural)]
pub enum Pin {
    PA00, PA01, PA02, PA03, PA04, PA05, PA06, PA07,
    PA08, PA09, PA10, PA11, PA12, PA13, PA14, PA15,
    PA16, PA17, PA18, PA19, PA20, PA21, PA22, PA23,
    PA24, PA25, PA26, PA27, PA28, PA29, PA30, PA31,
    PB00, PB01, PB02, PB03, PB04, PB05, PB06, PB07,
    PB08, PB09, PB12, PB13, PC00, PC01, PC02, PC03,
    PC04, PC05, PC06, PC07, PC08, PC09, PC10, PC11,
    PC12, PC13, PC14, PC15, PC16, PC17, PC18, PC19,
    PC20, PC21, PC22, PC23, PC24, PC25, PC26, PC27,
    PC28, PC29, PC30, PC31, PD00, PD01, PD02, PD03,
    PD04, PD05, PD06, PD07, PD08, PD09, PD10, PD11,
    PD12, PD13, PD14, PD15, PD16, PD17, PD18, PD19,
    PD20, PD21, PD22, PD23, PD24, PD25, PD26, PD27,
    PD28, PD29, PD30, PD31, PE00, PE01, PE02, PE03,
    PE04, PE05,
}

pub open spec fn spec_pin_port(p: Pin) -> usize {
    match p {
        Pin::PA00 => 0,
        Pin::PA01 => 0,
        Pin::PA02 => 0,
        Pin::PA03 => 0,
        Pin::PA04 => 0,
        Pin::PA05 => 0,
        Pin::PA06 => 0,
        Pin::PA07 => 0,
        Pin::PA08 => 0,
        Pin::PA09 => 0,
        Pin::PA10 => 0,
        Pin::PA11 => 0,
        Pin::PA12 => 0,
        Pin::PA13 => 0,
        Pin::PA14 => 0,
        Pin::PA15 => 0,
        Pin::PA16 => 0,
        Pin::PA17 => 0,
        Pin::PA18 => 0,
        Pin::PA19 => 0,
        Pin::PA20 => 0,
        Pin::PA21 => 0,
        Pin::PA22 => 0,
        Pin::PA23 => 0,
        Pin::PA24 => 0,
        Pin::PA25 => 0,
        Pin::PA26 => 0,
        Pin::PA27 => 0,
        Pin::PA28 => 0,
        Pin::PA29 => 0,
        Pin::PA30 => 0,
        Pin::PA31 => 0,
        Pin::PB00 => 1,
        Pin::PB01 => 1,
        Pin::PB02 => 1,
        Pin::PB03 => 1,
        Pin::PB04 => 1,
        Pin::PB05 => 1,
        Pin::PB06 => 1,
        Pin::PB07 => 1,
        Pin::PB08 => 1,
        Pin::PB09 => 1,
        Pin::PB12 => 1,
        Pin::PB13 => 1,
        Pin::PC00 => 2,
        Pin::PC01 => 2,
        Pin::PC02 => 2,
        Pin::PC03 => 2,
        Pin::PC04 => 2,
        Pin::PC05 => 2,
        Pin::PC06 => 2,
        Pin::PC07 => 2,
        Pin::PC08 => 2,
        Pin::PC09 => 2,
        Pin::PC10 => 2,
        Pin::PC11 => 2,
        Pin::PC12 => 2,
        Pin::PC13 => 2,
        Pin::PC14 => 2,
        Pin::PC15 => 2,
        Pin::PC16 => 2,
        Pin::PC17 => 2,
        Pin::PC18 => 2,
        Pin::PC19 => 2,
        Pin::PC20 => 2,
        Pin::PC21 => 2,
        Pin::PC22 => 2,
        Pin::PC23 => 2,
        Pin::PC24 => 2,
        Pin::PC25 => 2,
        Pin::PC26 => 2,
        Pin::PC27 => 2,
        Pin::PC28 => 2,
        Pin::PC29 => 2,
        Pin::PC30 => 2,
        Pin::PC31 => 2,
        Pin::PD00 => 3,
        Pin::PD01 => 3,
        Pin::PD02 => 3,
        Pin::PD03 => 3,
        Pin::PD04 => 3,
        Pin::PD05 => 3,
        Pin::PD06 => 3,
        Pin::PD07 => 3,
        Pin::PD08 => 3,
        Pin::PD09 => 3,
        Pin::PD10 => 3,
        Pin::PD11 => 3,
        Pin::PD12 => 3,
        Pin::PD13 => 3,
        Pin::PD14 => 3,
        Pin::PD15 => 3,
        Pin::PD16 => 3,
        Pin::PD17 => 3,
        Pin::PD18 => 3,
        Pin::PD19 => 3,
        Pin::PD20 => 3,
        Pin::PD21 => 3,
        Pin::PD22 => 3,
        Pin::PD23 => 3,
        Pin::PD24 => 3,
        Pin::PD25 => 3,
        Pin::PD26 => 3,
        Pin::PD27 => 3,
        Pin::PD28 => 3,
        Pin::PD29 => 3,
        Pin::PD30 => 3,
        Pin::PD31 => 3,
        Pin::PE00 => 4,
        Pin::PE01 => 4,
        Pin::PE02 => 4,
        Pin::PE03 => 4,
        Pin::PE04 => 4,
        Pin::PE05 => 4,
    }
}

pub open spec fn spec_pin_bit(p: Pin) -> u32 {
    match p {
        Pin::PA00 => 0,
        Pin::PA01 => 1,
        Pin::PA02 => 2,
        Pin::PA03 => 3,
        Pin::PA04 => 4,
        Pin::PA05 => 5,
        Pin::PA06 => 6,
        Pin::PA07 => 7,
        Pin::PA08 => 8,
        Pin::PA09 => 9,
        Pin::PA10 => 10,
        Pin::PA11 => 11,
        Pin::PA12 => 12,
        Pin::PA13 => 13,
        Pin::PA14 => 14,
        Pin::PA15 => 15,
        Pin::PA16 => 16,
        Pin::PA17 => 17,
        Pin::PA18 => 18,
        Pin::PA19 => 19,
        Pin::PA20 => 20,
        Pin::PA21 => 21,
        Pin::PA22 => 22,
        Pin::PA23 => 23,
        Pin::PA24 => 24,
        Pin::PA25 => 25,
        Pin::PA26 => 26,
        Pin::PA27 => 27,
        Pin::PA28 => 28,
        Pin::PA29 => 29,
        Pin::PA30 => 30,
        Pin::PA31 => 31,
        Pin::PB00 => 0,
        Pin::PB01 => 1,
        Pin::PB02 => 2,
        Pin::PB03 => 3,
        Pin::PB04 => 4,
        Pin::PB05 => 5,
        Pin::PB06 => 6,
        Pin::PB07 => 7,
        Pin::PB08 => 8,
        Pin::PB09 => 9,
        Pin::PB12 => 12,
        Pin::PB13 => 13,
        Pin::PC00 => 0,
        Pin::PC01 => 1,
        Pin::PC02 => 2,
        Pin::PC03 => 3,
        Pin::PC04 => 4,
        Pin::PC05 => 5,
        Pin::PC06 => 6,
        Pin::PC07 => 7,
        Pin::PC08 => 8,
        Pin::PC09 => 9,
        Pin::PC10 => 10,
        Pin::PC11 => 11,
        Pin::PC12 => 12,
        Pin::PC13 => 13,
        Pin::PC14 => 14,
        Pin::PC15 => 15,
        Pin::PC16 => 16,
        Pin::PC17 => 17,
        Pin::PC18 => 18,
        Pin::PC19 => 19,
        Pin::PC20 => 20,
        Pin::PC21 => 21,
        Pin::PC22 => 22,
        Pin::PC23 => 23,
        Pin::PC24 => 24,
        Pin::PC25 => 25,
        Pin::PC26 => 26,
        Pin::PC27 => 27,
        Pin::PC28 => 28,
        Pin::PC29 => 29,
        Pin::PC30 => 30,
        Pin::PC31 => 31,
        Pin::PD00 => 0,
        Pin::PD01 => 1,
        Pin::PD02 => 2,
        Pin::PD03 => 3,
        Pin::PD04 => 4,
        Pin::PD05 => 5,
        Pin::PD06 => 6,
        Pin::PD07 => 7,
        Pin::PD08 => 8,
        Pin::PD09 => 9,
        Pin::PD10 => 10,
        Pin::PD11 => 11,
        Pin::PD12 => 12,
        Pin::PD13 => 13,
        Pin::PD14 => 14,
        Pin::PD15 => 15,
        Pin::PD16 => 16,
        Pin::PD17 => 17,
        Pin::PD18 => 18,
        Pin::PD19 => 19,
        Pin::PD20 => 20,
        Pin::PD21 => 21,
        Pin::PD22 => 22,
        Pin::PD23 => 23,
        Pin::PD24 => 24,
        Pin::PD25 => 25,
        Pin::PD26 => 26,
        Pin::PD27 => 27,
        Pin::PD28 => 28,
        Pin::PD29 => 29,
        Pin::PD30 => 30,
        Pin::PD31 => 31,
        Pin::PE00 => 0,
        Pin::PE01 => 1,
        Pin::PE02 => 2,
        Pin::PE03 => 3,
        Pin::PE04 => 4,
        Pin::PE05 => 5,
    }
}

pub open spec fn spec_pin_at(port: usize, bit: u32) -> Option<Pin> {
    match port {
        0 => match bit {
            0 => Some(Pin::PA00),
            1 => Some(Pin::PA01),
            2 => Some(Pin::PA02),
            3 => Some(Pin::PA03),
            4 => Some(Pin::PA04),
            5 => Some(Pin::PA05),
            6 => Some(Pin::PA06),
            7 => Some(Pin::PA07),
            8 => Some(Pin::PA08),
            9 => Some(Pin::PA09),
            10 => Some(Pin::PA10),
            11 => Some(Pin::PA11),
            12 => Some(Pin::PA12),
            13 => Some(Pin::PA13),
            14 => Some(Pin::PA14),
            15 => Some(Pin::PA15),
            16 => Some(Pin::PA16),
            17 => Some(Pin::PA17),
            18 => Some(Pin::PA18),
            19 => Some(Pin::PA19),
            20 => Some(Pin::PA20),
            21 => Some(Pin::PA21),
            22 => Some(Pin::PA22),
            23 => Some(Pin::PA23),
            24 => Some(Pin::PA24),
            25 => Some(Pin::PA25),
            26 => Some(Pin::PA26),
            27 => Some(Pin::PA27),
            28 => Some(Pin::PA28),
            29 => Some(Pin::PA29),
            30 => Some(Pin::PA30),
            31 => Some(Pin::PA31),
            _ => None,
        },
        1 => match bit {
            0 => Some(Pin::PB00),
            1 => Some(Pin::PB01),
            2 => Some(Pin::PB02),
            3 => Some(Pin::PB03),
            4 => Some(Pin::PB04),
            5 => Some(Pin::PB05),
            6 => Some(Pin::PB06),
            7 => Some(Pin::PB07),
            8 => Some(Pin::PB08),
            9 => Some(Pin::PB09),
            12 => Some(Pin::PB12),
            13 => Some(Pin::PB13),
            _ => None,
        },
        2 => match bit {
            0 => Some(Pin::PC00),
            1 => Some(Pin::PC01),
            2 => Some(Pin::PC02),
            3 => Some(Pin::PC03),
            4 => Some(Pin::PC04),
            5 => Some(Pin::PC05),
            6 => Some(Pin::PC06),
            7 => Some(Pin::PC07),
            8 => Some(Pin::PC08),
            9 => Some(Pin::PC09),
            10 => Some(Pin::PC10),
            11 => Some(Pin::PC11),
            12 => Some(Pin::PC12),
            13 => Some(Pin::PC13),
            14 => Some(Pin::PC14),
            15 => Some(Pin::PC15),
            16 => Some(Pin::PC16),
            17 => Some(Pin::PC17),
            18 => Some(Pin::PC18),
            19 => Some(Pin::PC19),
            20 => Some(Pin::PC20),
            21 => Some(Pin::PC21),
            22 => Some(Pin::PC22),
            23 => Some(Pin::PC23),
            24 => Some(Pin::PC24),
            25 => Some(Pin::PC25),
            26 => Some(Pin::PC26),
            27 => Some(Pin::PC27),
            28 => Some(Pin::PC28),
            29 => Some(Pin::PC29),
            30 => Some(Pin::PC30),
            31 => Some(Pin::PC31),
            _ => None,
        },
        3 => match bit {
            0 => Some(Pin::PD00),
            1 => Some(Pin::PD01),
            2 => Some(Pin::PD02),
            3 => Some(Pin::PD03),
            4 => Some(Pin::PD04),
            5 => Some(Pin::PD05),
            6 => Some(Pin::PD06),
            7 => Some(Pin::PD07),
            8 => Some(Pin::PD08),
            9 => Some(Pin::PD09),
            10 => Some(Pin::PD10),
            11 => Some(Pin::PD11),
            12 => Some(Pin::PD12),
            13 => Some(Pin::PD13),
            14 => Some(Pin::PD14),
            15 => Some(Pin::PD15),
            16 => Some(Pin::PD16),
            17 => Some(Pin::PD17),
            18 => Some(Pin::PD18),
            19 => Some(Pin::PD19),
            20 => Some(Pin::PD20),
            21 => Some(Pin::PD21),
            22 => Some(Pin::PD22),
            23 => Some(Pin::PD23),
            24 => Some(Pin::PD24),
            25 => Some(Pin::PD25),
            26 => Some(Pin::PD26),
            27 => Some(Pin::PD27),
            28 => Some(Pin::PD28),
            29 => Some(Pin::PD29),
            30 => Some(Pin::PD30),
            31 => Some(Pin::PD31),
            _ => None,
        },
        4 => match bit {
            0 => Some(Pin::PE00),
            1 => Some(Pin::PE01),
            2 => Some(Pin::PE02),
            3 => Some(Pin::PE03),
            4 => Some(Pin::PE04),
            5 => Some(Pin::PE05),
            _ => None,
        },
        _ => None,
    }
}

pub fn pin_at(port: usize, bit: u32) -> (r: Option<Pin>)
    ensures
        r == spec_pin_at(port, bit),
{
    match port {
        0 => match bit {
            0 => Some(Pin::PA00),
            1 => Some(Pin::PA01),
            2 => Some(Pin::PA02),
            3 => Some(Pin::PA03),
            4 => Some(Pin::PA04),
            5 => Some(Pin::PA05),
            6 => Some(Pin::PA06),
            7 => Some(Pin::PA07),
            8 => Some(Pin::PA08),
            9 => Some(Pin::PA09),
            10 => Some(Pin::PA10),
            11 => Some(Pin::PA11),
            12 => Some(Pin::PA12),
            13 => Some(Pin::PA13),
            14 => Some(Pin::PA14),
            15 => Some(Pin::PA15),
            16 => Some(Pin::PA16),
            17 => Some(Pin::PA17),
            18 => Some(Pin::PA18),
            19 => Some(Pin::PA19),
            20 => Some(Pin::PA20),
            21 => Some(Pin::PA21),
            22 => Some(Pin::PA22),
            23 => Some(Pin::PA23),
            24 => Some(Pin::PA24),
            25 => Some(Pin::PA25),
            26 => Some(Pin::PA26),
            27 => Some(Pin::PA27),
            28 => Some(Pin::PA28),
            29 => Some(Pin::PA29),
            30 => Some(Pin::PA30),
            31 => Some(Pin::PA31),
            _ => None,
        },
        1 => match bit {
            0 => Some(Pin::PB00),
            1 => Some(Pin::PB01),
            2 => Some(Pin::PB02),
            3 => Some(Pin::PB03),
            4 => Some(Pin::PB04),
            5 => Some(Pin::PB05),
            6 => Some(Pin::PB06),
            7 => Some(Pin::PB07),
            8 => Some(Pin::PB08),
            9 => Some(Pin::PB09),
            12 => Some(Pin::PB12),
            13 => Some(Pin::PB13),
            _ => None,
        },
        2 => match bit {
            0 => Some(Pin::PC00),
            1 => Some(Pin::PC01),
            2 => Some(Pin::PC02),
            3 => Some(Pin::PC03),
            4 => Some(Pin::PC04),
            5 => Some(Pin::PC05),
            6 => Some(Pin::PC06),
            7 => Some(Pin::PC07),
            8 => Some(Pin::PC08),
            9 => Some(Pin::PC09),
            10 => Some(Pin::PC10),
            11 => Some(Pin::PC11),
            12 => Some(Pin::PC12),
            13 => Some(Pin::PC13),
            14 => Some(Pin::PC14),
            15 => Some(Pin::PC15),
            16 => Some(Pin::PC16),
            17 => Some(Pin::PC17),
            18 => Some(Pin::PC18),
            19 => Some(Pin::PC19),
            20 => Some(Pin::PC20),
            21 => Some(Pin::PC21),
            22 => Some(Pin::PC22),
            23 => Some(Pin::PC23),
            24 => Some(Pin::PC24),
            25 => Some(Pin::PC25),
            26 => Some(Pin::PC26),
            27 => Some(Pin::PC27),
            28 => Some(Pin::PC28),
            29 => Some(Pin::PC29),
            30 => Some(Pin::PC30),
            31 => Some(Pin::PC31),
            _ => None,
        },
        3 => match bit {
            0 => Some(Pin::PD00),
            1 => Some(Pin::PD01),
            2 => Some(Pin::PD02),
            3 => Some(Pin::PD03),
            4 => Some(Pin::PD04),
            5 => Some(Pin::PD05),
            6 => Some(Pin::PD06),
            7 => Some(Pin::PD07),
            8 => Some(Pin::PD08),
            9 => Some(Pin::PD09),
            10 => Some(Pin::PD10),
            11 => Some(Pin::PD11),
            12 => Some(Pin::PD12),
            13 => Some(Pin::PD13),
            14 => Some(Pin::PD14),
            15 => Some(Pin::PD15),
            16 => Some(Pin::PD16),
            17 => Some(Pin::PD17),
            18 => Some(Pin::PD18),
            19 => Some(Pin::PD19),
            20 => Some(Pin::PD20),
            21 => Some(Pin::PD21),
            22 => Some(Pin::PD22),
            23 => Some(Pin::PD23),
            24 => Some(Pin::PD24),
            25 => Some(Pin::PD25),
            26 => Some(Pin::PD26),
            27 => Some(Pin::PD27),
            28 => Some(Pin::PD28),
            29 => Some(Pin::PD29),
            30 => Some(Pin::PD30),
            31 => Some(Pin::PD31),
            _ => None,
        },
        4 => match bit {
            0 => Some(Pin::PE00),
            1 => Some(Pin::PE01),
            2 => Some(Pin::PE02),
            3 => Some(Pin::PE03),
            4 => Some(Pin::PE04),
            5 => Some(Pin::PE05),
            _ => None,
        },
        _ => None,
    }
}

impl Pin {
    pub fn port(self) -> (r: usize)
        ensures
            r == spec_pin_port(self),
    {
        match self {
            Pin::PA00 => 0,
            Pin::PA01 => 0,
            Pin::PA02 => 0,
            Pin::PA03 => 0,
            Pin::PA04 => 0,
            Pin::PA05 => 0,
            Pin::PA06 => 0,
            Pin::PA07 => 0,
            Pin::PA08 => 0,
            Pin::PA09 => 0,
            Pin::PA10 => 0,
            Pin::PA11 => 0,
            Pin::PA12 => 0,
            Pin::PA13 => 0,
            Pin::PA14 => 0,
            Pin::PA15 => 0,
            Pin::PA16 => 0,
            Pin::PA17 => 0,
            Pin::PA18 => 0,
            Pin::PA19 => 0,
            Pin::PA20 => 0,
            Pin::PA21 => 0,
            Pin::PA22 => 0,
            Pin::PA23 => 0,
            Pin::PA24 => 0,
            Pin::PA25 => 0,
            Pin::PA26 => 0,
            Pin::PA27 => 0,
            Pin::PA28 => 0,
            Pin::PA29 => 0,
            Pin::PA30 => 0,
            Pin::PA31 => 0,
            Pin::PB00 => 1,
            Pin::PB01 => 1,
            Pin::PB02 => 1,
            Pin::PB03 => 1,
            Pin::PB04 => 1,
            Pin::PB05 => 1,
            Pin::PB06 => 1,
            Pin::PB07 => 1,
            Pin::PB08 => 1,
            Pin::PB09 => 1,
            Pin::PB12 => 1,
            Pin::PB13 => 1,
            Pin::PC00 => 2,
            Pin::PC01 => 2,
            Pin::PC02 => 2,
            Pin::PC03 => 2,
            Pin::PC04 => 2,
            Pin::PC05 => 2,
            Pin::PC06 => 2,
            Pin::PC07 => 2,
            Pin::PC08 => 2,
            Pin::PC09 => 2,
            Pin::PC10 => 2,
            Pin::PC11 => 2,
            Pin::PC12 => 2,
            Pin::PC13 => 2,
            Pin::PC14 => 2,
            Pin::PC15 => 2,
            Pin::PC16 => 2,
            Pin::PC17 => 2,
            Pin::PC18 => 2,
            Pin::PC19 => 2,
            Pin::PC20 => 2,
            Pin::PC21 => 2,
            Pin::PC22 => 2,
            Pin::PC23 => 2,
            Pin::PC24 => 2,
            Pin::PC25 => 2,
            Pin::PC26 => 2,
            Pin::PC27 => 2,
            Pin::PC28 => 2,
            Pin::PC29 => 2,
            Pin::PC30 => 2,
            Pin::PC31 => 2,
            Pin::PD00 => 3,
            Pin::PD01 => 3,
            Pin::PD02 => 3,
            Pin::PD03 => 3,
            Pin::PD04 => 3,
            Pin::PD05 => 3,
            Pin::PD06 => 3,
            Pin::PD07 => 3,
            Pin::PD08 => 3,
            Pin::PD09 => 3,
            Pin::PD10 => 3,
            Pin::PD11 => 3,
            Pin::PD12 => 3,
            Pin::PD13 => 3,
            Pin::PD14 => 3,
            Pin::PD15 => 3,
            Pin::PD16 => 3,
            Pin::PD17 => 3,
            Pin::PD18 => 3,
            Pin::PD19 => 3,
            Pin::PD20 => 3,
            Pin::PD21 => 3,
            Pin::PD22 => 3,
            Pin::PD23 => 3,
            Pin::PD24 => 3,
            Pin::PD25 => 3,
            Pin::PD26 => 3,
            Pin::PD27 => 3,
            Pin::PD28 => 3,
            Pin::PD29 => 3,
            Pin::PD30 => 3,
            Pin::PD31 => 3,
            Pin::PE00 => 4,
            Pin::PE01 => 4,
            Pin::PE02 => 4,
            Pin::PE03 => 4,
            Pin::PE04 => 4,
            Pin::PE05 => 4,
        }
    }

    pub fn bit(self) -> (r: u32)
        ensures
            r == spec_pin_bit(self),
    {
        match self {
            Pin::PA00 => 0,
            Pin::PA01 => 1,
            Pin::PA02 => 2,
            Pin::PA03 => 3,
            Pin::PA04 => 4,
            Pin::PA05 => 5,
            Pin::PA06 => 6,
            Pin::PA07 => 7,
            Pin::PA08 => 8,
            Pin::PA09 => 9,
            Pin::PA10 => 10,
            Pin::PA11 => 11,
            Pin::PA12 => 12,
            Pin::PA13 => 13,
            Pin::PA14 => 14,
            Pin::PA15 => 15,
            Pin::PA16 => 16,
            Pin::PA17 => 17,
            Pin::PA18 => 18,
            Pin::PA19 => 19,
            Pin::PA20 => 20,
            Pin::PA21 => 21,
            Pin::PA22 => 22,
            Pin::PA23 => 23,
            Pin::PA24 => 24,
            Pin::PA25 => 25,
            Pin::PA26 => 26,
            Pin::PA27 => 27,
            Pin::PA28 => 28,
            Pin::PA29 => 29,
            Pin::PA30 => 30,
            Pin::PA31 => 31,
            Pin::PB00 => 0,
            Pin::PB01 => 1,
            Pin::PB02 => 2,
            Pin::PB03 => 3,
            Pin::PB04 => 4,
            Pin::PB05 => 5,
            Pin::PB06 => 6,
            Pin::PB07 => 7,
            Pin::PB08 => 8,
            Pin::PB09 => 9,
            Pin::PB12 => 12,
            Pin::PB13 => 13,
            Pin::PC00 => 0,
            Pin::PC01 => 1,
            Pin::PC02 => 2,
            Pin::PC03 => 3,
            Pin::PC04 => 4,
            Pin::PC05 => 5,
            Pin::PC06 => 6,
            Pin::PC07 => 7,
            Pin::PC08 => 8,
            Pin::PC09 => 9,
            Pin::PC10 => 10,
            Pin::PC11 => 11,
            Pin::PC12 => 12,
            Pin::PC13 => 13,
            Pin::PC14 => 14,
            Pin::PC15 => 15,
            Pin::PC16 => 16,
            Pin::PC17 => 17,
            Pin::PC18 => 18,
            Pin::PC19 => 19,
            Pin::PC20 => 20,
            Pin::PC21 => 21,
            Pin::PC22 => 22,
            Pin::PC23 => 23,
            Pin::PC24 => 24,
            Pin::PC25 => 25,
            Pin::PC26 => 26,
            Pin::PC27 => 27,
            Pin::PC28 => 28,
            Pin::PC29 => 29,
            Pin::PC30 => 30,
            Pin::PC31 => 31,
            Pin::PD00 => 0,
            Pin::PD01 => 1,
            Pin::PD02 => 2,
            Pin::PD03 => 3,
            Pin::PD04 => 4,
            Pin::PD05 => 5,
            Pin::PD06 => 6,
            Pin::PD07 => 7,
            Pin::PD08 => 8,
            Pin::PD09 => 9,
            Pin::PD10 => 10,
            Pin::PD11 => 11,
            Pin::PD12 => 12,
            Pin::PD13 => 13,
            Pin::PD14 => 14,
            Pin::PD15 => 15,
            Pin::PD16 => 16,
            Pin::PD17 => 17,
            Pin::PD18 => 18,
            Pin::PD19 => 19,
            Pin::PD20 => 20,
            Pin::PD21 => 21,
            Pin::PD22 => 22,
            Pin::PD23 => 23,
            Pin::PD24 => 24,
            Pin::PD25 => 25,
            Pin::PD26 => 26,
            Pin::PD27 => 27,
            Pin::PD28 => 28,
            Pin::PD29 => 29,
            Pin::PD30 => 30,
            Pin::PD31 => 31,
            Pin::PE00 => 0,
            Pin::PE01 => 1,
            Pin::PE02 => 2,
            Pin::PE03 => 3,
            Pin::PE04 => 4,
            Pin::PE05 => 5,
        }
    }
}

/// Address of port `port`'s registers.
pub open spec fn spec_port_address(port: usize) -> int {
    BASE_ADDRESS + port * SIZE
}

/// A port register, as the driver sees it.
#[derive(Clone, Copy, Debug, PartialEq, Eq, Structural)]
pub enum GpioReg {
    /// GPIO enable (the pin is a GPIO, not a peripheral's).
    Gper,
    /// Peripheral mux selection, bits 0 to 2.
    Pmr0,
    Pmr1,
    Pmr2,
    /// Output driver enable.
    Oder,
    /// Pull-down enable.
    Pder,
    /// Pull-up enable.
    Puer,
    /// Interrupt mode, bits 0 and 1.
    Imr0,
    Imr1,
    /// Interrupt enable.
    Ier,
    /// Interrupt flags.
    Ifr,
    /// Schmitt trigger enable.
    Ster,
    /// Output value.
    Ovr,
}

/// How a write changes the register's bits under the mask.
#[derive(Clone, Copy, Debug, PartialEq, Eq, Structural)]
pub enum RegAction {
    SetBits,
    ClearBits,
    ToggleBits,
}

/// A write of `mask` to a view of a port register.
#[derive(Clone, Copy, Debug, PartialEq, Eq, Structural)]
pub struct GpioWrite {
    pub port: usize,
    pub reg: GpioReg,
    pub action: RegAction,
    pub mask: u32,
}

/// How a pin floats when not driven.
#[derive(Clone, Copy, Debug, PartialEq, Eq, Structural)]
pub enum FloatingState {
    PullUp,
    PullDown,
    PullNone,
}

/// What a pin is configured as.
#[derive(Clone, Copy, Debug, PartialEq, Eq, Structural)]
pub enum Configuration {
    LowPower,
    Input,
    Output,
    InputOutput,
    Function,
    Other,
}

/// Edges an interrupt fires on.
#[derive(Clone, Copy, Debug, PartialEq, Eq, Structural)]
pub enum InterruptEdge {
    RisingEdge,
    FallingEdge,
    EitherEdge,
}

/// A pin whose interrupt fired, with the write that clears its flag
/// afterwards.
#[derive(Clone, Copy, Debug, PartialEq, Eq, Structural)]
pub struct PinInterrupt {
    pub pin: Pin,
    pub clear: GpioWrite,
}

/// The pins whose interrupts a port dispatches, given the enabled flags
/// `fired`, from bit `b` up: in increasing bit order, passing over a fired
/// bit that names no pin of the port.
pub open spec fn spec_dispatch(port: usize, fired: u32, b: nat) -> Seq<Pin>
    decreases 32 - b,
{
    if b >= 32 {
        Seq::empty()
    } else if fired & (1u32 << b as u32) != 0 {
        match spec_pin_at(port, b as u32) {
            Some(p) => seq![p] + spec_dispatch(port, fired, b + 1),
            None => spec_dispatch(port, fired, b + 1),
        }
    } else {
        spec_dispatch(port, fired, b + 1)
    }
}

/// A port, by number: A is 0 to E is 4.
pub struct Port<const P: usize> {}

pub type PortA = Port<0>;

pub type PortB = Port<1>;

pub type PortC = Port<2>;

pub type PortD = Port<3>;

pub type PortE = Port<4>;

impl PortA {
    pub fn new() -> (r: Self) {
        Port {  }
    }
}

impl PortB {
    pub fn new() -> (r: Self) {
        Port {  }
    }
}

impl PortC {
    pub fn new() -> (r: Self) {
        Port {  }
    }
}

impl PortD {
    pub fn new() -> (r: Self) {
        Port {  }
    }
}

impl PortE {
    pub fn new() -> (r: Self) {
        Port {  }
    }
}

impl<const P: usize> Port<P> {
    /// Dispatch the port's interrupt, given its flag register `ifr` and
    /// enable register `ier` (a flag counts only when enabled): the pins to
    /// notify, lowest bit first, each followed by clearing its flag.
    pub fn handle_interrupt(&self, ifr: u32, ier: u32) -> (r: Vec<PinInterrupt>)
        ensures
            r@.len() == spec_dispatch(P, ifr & ier, 0).len(),
            forall|i: int|
                0 <= i < r@.len() ==> #[trigger] r@[i].pin == spec_dispatch(P, ifr & ier, 0)[i]
                    && r@[i].clear == (GpioWrite {
                    port: P,
                    reg: GpioReg::Ifr,
                    action: RegAction::ClearBits,
                    mask: 1u32 << spec_pin_bit(r@[i].pin),
                }),
    {
        let fired = ifr & ier;
        let mut r: Vec<PinInterrupt> = Vec::new();
        let mut b: u32 = 0;
        while b < 32
            invariant
                b <= 32,
                spec_dispatch(P, fired, 0) == r@.map_values(|x: PinInterrupt| x.pin) + spec_dispatch(
                    P,
                    fired,
                    b as nat,
                ),
                forall|i: int|
                    0 <= i < r@.len() ==> #[trigger] r@[i].clear == (GpioWrite {
                        port: P,
                        reg: GpioReg::Ifr,
                        action: RegAction::ClearBits,
                        mask: 1u32 << spec_pin_bit(r@[i].pin),
                    }),
            decreases 32 - b,
        {
            if fired & (1u32 << b) != 0 {
                match pin_at(P, b) {
                    Some(p) => {
                        let ghost before = r@;
                        r.push(
                            PinInterrupt {
                                pin: p,
                                clear: GpioWrite {
                                    port: P,
                                    reg: GpioReg::Ifr,
                                    action: RegAction::ClearBits,
                                    mask: 1u32 << b,
                                },
                            },
                        );
                        assert(r@.map_values(|x: PinInterrupt| x.pin) =~= before.map_values(
                            |x: PinInterrupt| x.pin,
                        ).push(p));
                    },
                    None => {},
                }
            }
            b = b + 1;
        }
        proof {
            assert(r@.map_values(|x: PinInterrupt| x.pin) + Seq::<Pin>::empty()
                =~= r@.map_values(|x: PinInterrupt| x.pin));
        }
        r
    }
}

/// A pin.
pub struct GPIOPin {
    pub port: usize,
    pub pin_mask: u32,
    /// Whether a client is registered.
    pub client: bool,
}

/// A write of the pin's mask to a view of one of its port's registers.
pub open spec fn pin_write(p: GPIOPin, reg: GpioReg, action: RegAction) -> GpioWrite {
    GpioWrite { port: p.port, reg, action, mask: p.pin_mask }
}

/// Set or clear, as `on` says.
pub open spec fn set_if(on: bool) -> RegAction {
    if on {
        RegAction::SetBits
    } else {
        RegAction::ClearBits
    }
}

/// The writes that give the pin to `function`: release it from GPIO, then
/// select the function's number in the three mux bits.
pub open spec fn spec_select_peripheral(p: GPIOPin, function: PeripheralFunction) -> Seq<GpioWrite> {
    let f = spec_function_number(function);
    seq![
        pin_write(p, GpioReg::Gper, RegAction::ClearBits),
        pin_write(p, GpioReg::Pmr0, set_if(f & 1 != 0)),
        pin_write(p, GpioReg::Pmr1, set_if(f & 2 != 0)),
        pin_write(p, GpioReg::Pmr2, set_if(f & 4 != 0)),
    ]
}

/// The writes that set the interrupt mode bits from `mode`.
pub open spec fn spec_interrupt_mode(p: GPIOPin, mode: u8) -> Seq<GpioWrite> {
    seq![
        pin_write(p, GpioReg::Imr0, set_if(mode & 1 != 0)),
        pin_write(p, GpioReg::Imr1, set_if(mode & 2 != 0)),
    ]
}

/// The interrupt mode for an edge: 0 for either, 1 rising, 2 falling.
pub open spec fn spec_edge_mode(edge: InterruptEdge) -> u8 {
    match edge {
        InterruptEdge::EitherEdge => 0,
        InterruptEdge::RisingEdge => 1,
        InterruptEdge::FallingEdge => 2,
    }
}

impl GPIOPin {
    /// The pin named `pin`: its port, and the mask of its bit.
    pub fn new(pin: Pin) -> (r: GPIOPin)
        ensures
            r.port == spec_pin_port(pin),
            r.pin_mask == 1u32 << spec_pin_bit(pin),
            !r.client,
    {
        GPIOPin { port: pin.port(), pin_mask: 1u32 << pin.bit(), client: false }
    }

    /// Address of the pin's port.
    pub fn port_address(&self) -> (r: usize)
        requires
            self.port <= 4,
        ensures
            r == spec_port_address(self.port),
    {
        BASE_ADDRESS + self.port * SIZE
    }

    pub fn set_client(&mut self)
        ensures
            final(self).client,
            final(self).port == old(self).port,
            final(self).pin_mask == old(self).pin_mask,
    {
        self.client = true;
    }

    /// Give the pin to a peripheral function.
    pub fn select_peripheral(&self, function: PeripheralFunction) -> (r: Vec<GpioWrite>)
        ensures
            r@ == spec_select_peripheral(*self, function),
    {
        let f: u32 = match function {
            PeripheralFunction::A => 0,
            PeripheralFunction::B => 1,
            PeripheralFunction::C => 2,
            PeripheralFunction::D => 3,
        };
        let mut r: Vec<GpioWrite> = Vec::new();
        r.push(self.write(GpioReg::Gper, RegAction::ClearBits));
        r.push(self.write(GpioReg::Pmr0, if f & 1 == 0 { RegAction::ClearBits } else { RegAction::SetBits }));
        r.push(self.write(GpioReg::Pmr1, if f & 2 == 0 { RegAction::ClearBits } else { RegAction::SetBits }));
        r.push(self.write(GpioReg::Pmr2, if f & 4 == 0 { RegAction::ClearBits } else { RegAction::SetBits }));
        assert(r@ =~= spec_select_peripheral(*self, function));
        r
    }

    fn write(&self, reg: GpioReg, action: RegAction) -> (r: GpioWrite)
        ensures
            r == pin_write(*self, reg, action),
    {
        GpioWrite { port: self.port, reg, action, mask: self.pin_mask }
    }

    /// Make the pin a GPIO.
    pub fn enable(&self) -> (r: GpioWrite)
        ensures
            r == pin_write(*self, GpioReg::Gper, RegAction::SetBits),
    {
        self.write(GpioReg::Gper, RegAction::SetBits)
    }

    /// Release the pin from GPIO.
    pub fn disable(&self) -> (r: GpioWrite)
        ensures
            r == pin_write(*self, GpioReg::Gper, RegAction::ClearBits),
    {
        self.write(GpioReg::Gper, RegAction::ClearBits)
    }

    /// Whether the pin's interrupt flag is set in `ifr`.
    pub fn is_pending(&self, ifr: u32) -> (r: bool)
        ensures
            r == (ifr & self.pin_mask != 0),
    {
        ifr & self.pin_mask != 0
    }

    pub fn enable_output(&self) -> (r: GpioWrite)
        ensures
            r == pin_write(*self, GpioReg::Oder, RegAction::SetBits),
    {
        self.write(GpioReg::Oder, RegAction::SetBits)
    }

    pub fn disable_output(&self) -> (r: GpioWrite)
        ensures
            r == pin_write(*self, GpioReg::Oder, RegAction::ClearBits),
    {
        self.write(GpioReg::Oder, RegAction::ClearBits)
    }

    pub fn enable_pull_down(&self) -> (r: GpioWrite)
        ensures
            r == pin_write(*self, GpioReg::Pder, RegAction::SetBits),
    {
        self.write(GpioReg::Pder, RegAction::SetBits)
    }

    pub fn disable_pull_down(&self) -> (r: GpioWrite)
        ensures
            r == pin_write(*self, GpioReg::Pder, RegAction::ClearBits),
    {
        self.write(GpioReg::Pder, RegAction::ClearBits)
    }

    pub fn enable_pull_up(&self) -> (r: GpioWrite)
        ensures
            r == pin_write(*self, GpioReg::Puer, RegAction::SetBits),
    {
        self.write(GpioReg::Puer, RegAction::SetBits)
    }

    pub fn disable_pull_up(&self) -> (r: GpioWrite)
        ensures
            r == pin_write(*self, GpioReg::Puer, RegAction::ClearBits),
    {
        self.write(GpioReg::Puer, RegAction::ClearBits)
    }

    /// Set the interrupt mode: bit 0 of `mode` for rising, bit 1 for
    /// falling, neither for any change.
    pub fn set_interrupt_mode(&self, mode: u8) -> (r: Vec<GpioWrite>)
        ensures
            r@ == spec_interrupt_mode(*self, mode),
    {
        let mut r: Vec<GpioWrite> = Vec::new();
        r.push(self.write(GpioReg::Imr0, if mode & 1 != 0 { RegAction::SetBits } else { RegAction::ClearBits }));
        r.push(self.write(GpioReg::Imr1, if mode & 2 != 0 { RegAction::SetBits } else { RegAction::ClearBits }));
        assert(r@ =~= spec_interrupt_mode(*self, mode));
        r
    }

    /// Enable the pin's interrupt, given the enable register `ier` and the
    /// count of enabled GPIO interrupts: when not yet enabled, count it and
    /// enable it.
    pub fn enable_interrupt(&self, ier: u32, count: usize) -> (r: (Option<GpioWrite>, usize))
        ensures
            ier & self.pin_mask == 0 ==> r.0 == Some(pin_write(*self, GpioReg::Ier, RegAction::SetBits))
                && r.1 == count.wrapping_add(1),
            ier & self.pin_mask != 0 ==> r.0 is None && r.1 == count,
    {
        if ier & self.pin_mask == 0 {
            (Some(self.write(GpioReg::Ier, RegAction::SetBits)), count.wrapping_add(1))
        } else {
            (None, count)
        }
    }

    /// Disable the pin's interrupt, given the enable register `ier` and the
    /// count of enabled GPIO interrupts: when enabled, uncount it and
    /// disable it.
    pub fn disable_interrupt(&self, ier: u32, count: usize) -> (r: (Option<GpioWrite>, usize))
        ensures
            ier & self.pin_mask != 0 ==> r.0 == Some(pin_write(*self, GpioReg::Ier, RegAction::ClearBits))
                && r.1 == count.wrapping_sub(1),
            ier & self.pin_mask == 0 ==> r.0 is None && r.1 == count,
    {
        if ier & self.pin_mask != 0 {
            (Some(self.write(GpioReg::Ier, RegAction::ClearBits)), count.wrapping_sub(1))
        } else {
            (None, count)
        }
    }

    /// The pin's interrupt: whether the client is to be notified.
    pub fn handle_interrupt(&self) -> (r: bool)
        ensures
            r == self.client,
    {
        self.client
    }

    pub fn disable_schmidtt_trigger(&self) -> (r: GpioWrite)
        ensures
            r == pin_write(*self, GpioReg::Ster, RegAction::ClearBits),
    {
        self.write(GpioReg::Ster, RegAction::ClearBits)
    }

    pub fn enable_schmidtt_trigger(&self) -> (r: GpioWrite)
        ensures
            r == pin_write(*self, GpioReg::Ster, RegAction::SetBits),
    {
        self.write(GpioReg::Ster, RegAction::SetBits)
    }

    /// The pin's level in the pin value register `pvr`.
    pub fn read(&self, pvr: u32) -> (r: bool)
        ensures
            r == (pvr & self.pin_mask > 0),
    {
        pvr & self.pin_mask > 0
    }

    /// Toggle the output; `pvr` is the pin value register read afterwards,
    /// whose bit is returned.
    pub fn toggle(&self, pvr: u32) -> (r: (GpioWrite, bool))
        ensures
            r.0 == pin_write(*self, GpioReg::Ovr, RegAction::ToggleBits),
            r.1 == (pvr & self.pin_mask > 0),
    {
        (self.write(GpioReg::Ovr, RegAction::ToggleBits), self.read(pvr))
    }

    pub fn set(&self) -> (r: GpioWrite)
        ensures
            r == pin_write(*self, GpioReg::Ovr, RegAction::SetBits),
    {
        self.write(GpioReg::Ovr, RegAction::SetBits)
    }

    pub fn clear(&self) -> (r: GpioWrite)
        ensures
            r == pin_write(*self, GpioReg::Ovr, RegAction::ClearBits),
    {
        self.write(GpioReg::Ovr, RegAction::ClearBits)
    }

    /// Configure the pin for a peripheral function, or as a GPIO.
    pub fn configure(&self, config: Option<PeripheralFunction>) -> (r: Vec<GpioWrite>)
        ensures
            config matches Some(f) ==> r@ == spec_select_peripheral(*self, f),
            config is None ==> r@ == seq![pin_write(*self, GpioReg::Gper, RegAction::SetBits)],
    {
        match config {
            Some(f) => self.select_peripheral(f),
            None => {
                let mut r: Vec<GpioWrite> = Vec::new();
                r.push(self.enable());
                assert(r@ =~= seq![pin_write(*self, GpioReg::Gper, RegAction::SetBits)]);
                r
            },
        }
    }

    /// Set the pulls: the opposite pull is released before the wanted one
    /// is applied.
    pub fn set_floating_state(&self, mode: FloatingState) -> (r: Vec<GpioWrite>)
        ensures
            r@ == match mode {
                FloatingState::PullUp => seq![
                    pin_write(*self, GpioReg::Pder, RegAction::ClearBits),
                    pin_write(*self, GpioReg::Puer, RegAction::SetBits),
                ],
                FloatingState::PullDown => seq![
                    pin_write(*self, GpioReg::Puer, RegAction::ClearBits),
                    pin_write(*self, GpioReg::Pder, RegAction::SetBits),
                ],
                FloatingState::PullNone => seq![
                    pin_write(*self, GpioReg::Puer, RegAction::ClearBits),
                    pin_write(*self, GpioReg::Pder, RegAction::ClearBits),
                ],
            },
    {
        let mut r: Vec<GpioWrite> = Vec::new();
        match mode {
            FloatingState::PullUp => {
                r.push(self.disable_pull_down());
                r.push(self.enable_pull_up());
            },
            FloatingState::PullDown => {
                r.push(self.disable_pull_up());
                r.push(self.enable_pull_down());
            },
            FloatingState::PullNone => {
                r.push(self.disable_pull_up());
                r.push(self.disable_pull_down());
            },
        }
        assert(r@ =~= match mode {
            FloatingState::PullUp => seq![
                pin_write(*self, GpioReg::Pder, RegAction::ClearBits),
                pin_write(*self, GpioReg::Puer, RegAction::SetBits),
            ],
            FloatingState::PullDown => seq![
                pin_write(*self, GpioReg::Puer, RegAction::ClearBits),
                pin_write(*self, GpioReg::Pder, RegAction::SetBits),
            ],
            FloatingState::PullNone => seq![
                pin_write(*self, GpioReg::Puer, RegAction::ClearBits),
                pin_write(*self, GpioReg::Pder, RegAction::ClearBits),
            ],
        });
        r
    }

    /// Power down: release the pin from GPIO.
    pub fn deactivate_to_low_power(&self) -> (r: GpioWrite)
        ensures
            r == pin_write(*self, GpioReg::Gper, RegAction::ClearBits),
    {
        self.disable()
    }

    /// Make the pin a GPIO output (Schmitt trigger off).
    pub fn make_output(&self) -> (r: (Vec<GpioWrite>, Configuration))
        ensures
            r.0@ == seq![
                pin_write(*self, GpioReg::Gper, RegAction::SetBits),
                pin_write(*self, GpioReg::Oder, RegAction::SetBits),
                pin_write(*self, GpioReg::Ster, RegAction::ClearBits),
            ],
            r.1 == Configuration::Output,
    {
        let mut w: Vec<GpioWrite> = Vec::new();
        w.push(self.enable());
        w.push(self.enable_output());
        w.push(self.disable_schmidtt_trigger());
        assert(w@ =~= seq![
            pin_write(*self, GpioReg::Gper, RegAction::SetBits),
            pin_write(*self, GpioReg::Oder, RegAction::SetBits),
            pin_write(*self, GpioReg::Ster, RegAction::ClearBits),
        ]);
        (w, Configuration::Output)
    }

    /// Make the pin a GPIO input (output driver off, Schmitt trigger on).
    pub fn make_input(&self) -> (r: (Vec<GpioWrite>, Configuration))
        ensures
            r.0@ == seq![
                pin_write(*self, GpioReg::Gper, RegAction::SetBits),
                pin_write(*self, GpioReg::Oder, RegAction::ClearBits),
                pin_write(*self, GpioReg::Ster, RegAction::SetBits),
            ],
            r.1 == Configuration::Input,
    {
        let mut w: Vec<GpioWrite> = Vec::new();
        w.push(self.enable());
        w.push(self.disable_output());
        w.push(self.enable_schmidtt_trigger());
        assert(w@ =~= seq![
            pin_write(*self, GpioReg::Gper, RegAction::SetBits),
            pin_write(*self, GpioReg::Oder, RegAction::ClearBits),
            pin_write(*self, GpioReg::Ster, RegAction::SetBits),
        ]);
        (w, Configuration::Input)
    }

    /// Whether the pin is a GPIO, from the enable register `gper`.
    pub fn is_input(&self, gper: u32) -> (r: bool)
        ensures
            r == (gper & self.pin_mask != 0),
    {
        gper & self.pin_mask != 0
    }

    /// Whether the output driver is on, from `oder`.
    pub fn is_output(&self, oder: u32) -> (r: bool)
        ensures
            r == (oder & self.pin_mask != 0),
    {
        oder & self.pin_mask != 0
    }

    /// The pulls, from the pull-down and pull-up registers: pull-down wins.
    pub fn floating_state(&self, pder: u32, puer: u32) -> (r: FloatingState)
        ensures
            r == if pder & self.pin_mask != 0 {
                FloatingState::PullDown
            } else if puer & self.pin_mask != 0 {
                FloatingState::PullUp
            } else {
                FloatingState::PullNone
            },
    {
        if pder & self.pin_mask != 0 {
            FloatingState::PullDown
        } else if puer & self.pin_mask != 0 {
            FloatingState::PullUp
        } else {
            FloatingState::PullNone
        }
    }

    /// The configuration, from the enable and output registers. The GPIO
    /// test compares the masked enable bits with one.
    pub fn configuration(&self, gper: u32, oder: u32) -> (r: Configuration)
        ensures
            r == ({
                let gpio = gper & self.pin_mask == 1;
                let input = gper & self.pin_mask != 0;
                let output = oder & self.pin_mask != 0;
                if !gpio {
                    Configuration::Function
                } else if !input && !output {
                    Configuration::Other
                } else if !input {
                    Configuration::Output
                } else if !output {
                    Configuration::Input
                } else {
                    Configuration::InputOutput
                }
            }),
    {
        let input = self.is_input(gper);
        let output = self.is_output(oder);
        let gpio = gper & self.pin_mask == 1;
        match (gpio, input, output) {
            (false, _, _) => Configuration::Function,
            (true, false, false) => Configuration::Other,
            (true, false, true) => Configuration::Output,
            (true, true, false) => Configuration::Input,
            (true, true, true) => Configuration::InputOutput,
        }
    }

    /// Turn the output driver off; the configuration is then read from
    /// `gper` and `oder` as they stand afterwards.
    pub fn disable_output_config(&self, gper: u32, oder: u32) -> (r: (GpioWrite, Configuration))
        ensures
            r.0 == pin_write(*self, GpioReg::Oder, RegAction::ClearBits),
            r.1 == self.configuration_spec(gper, oder),
    {
        (self.disable_output(), self.configuration(gper, oder))
    }

    /// The configuration; nothing to turn off for input.
    pub fn disable_input(&self, gper: u32, oder: u32) -> (r: Configuration)
        ensures
            r == self.configuration_spec(gper, oder),
    {
        self.configuration(gper, oder)
    }

    pub open spec fn configuration_spec(&self, gper: u32, oder: u32) -> Configuration {
        let gpio = gper & self.pin_mask == 1;
        let input = gper & self.pin_mask != 0;
        let output = oder & self.pin_mask != 0;
        if !gpio {
            Configuration::Function
        } else if !input && !output {
            Configuration::Other
        } else if !input {
            Configuration::Output
        } else if !output {
            Configuration::Input
        } else {
            Configuration::InputOutput
        }
    }

    /// Enable interrupts on `edge`, given the enable register and the count
    /// of enabled GPIO interrupts.
    pub fn enable_interrupts(&self, edge: InterruptEdge, ier: u32, count: usize) -> (r: (Vec<GpioWrite>, usize))
        ensures
            r.0@ == spec_interrupt_mode(*self, spec_edge_mode(edge)) + if ier & self.pin_mask == 0 {
                seq![pin_write(*self, GpioReg::Ier, RegAction::SetBits)]
            } else {
                Seq::empty()
            },
            r.1 == if ier & self.pin_mask == 0 {
                count.wrapping_add(1)
            } else {
                count
            },
            r.0@[0] == pin_write(*self, GpioReg::Imr0, set_if(edge == InterruptEdge::RisingEdge)),
            r.0@[1] == pin_write(*self, GpioReg::Imr1, set_if(edge == InterruptEdge::FallingEdge)),
    {
        proof {
            edge_selects_interrupt_mode(*self, edge);
        }
        let mode: u8 = match edge {
            InterruptEdge::EitherEdge => 0,
            InterruptEdge::RisingEdge => 1,
            InterruptEdge::FallingEdge => 2,
        };
        let mut w = self.set_interrupt_mode(mode);
        let (e, c) = self.enable_interrupt(ier, count);
        match e {
            Some(x) => {
                w.push(x);
            },
            None => {},
        }
        assert(w@ =~= spec_interrupt_mode(*self, spec_edge_mode(edge)) + if ier & self.pin_mask == 0 {
            seq![pin_write(*self, GpioReg::Ier, RegAction::SetBits)]
        } else {
            Seq::empty()
        });
        (w, c)
    }
}

proof fn lemma_mode_bits()
    by (bit_vector)
    ensures
        0u8 & 1u8 == 0 && 0u8 & 2u8 == 0,
        1u8 & 1u8 != 0 && 1u8 & 2u8 == 0,
        2u8 & 1u8 == 0 && 2u8 & 2u8 != 0,
{
}

/// The edge picks the pin's interrupt mode: the first mode bit is set only
/// for rising edges, the second only for falling edges, and both are clear
/// for either edge (interrupt on every change of the pin).
pub proof fn edge_selects_interrupt_mode(p: GPIOPin, edge: InterruptEdge)
    ensures
        spec_interrupt_mode(p, spec_edge_mode(edge)) == seq![
            pin_write(p, GpioReg::Imr0, set_if(edge == InterruptEdge::RisingEdge)),
            pin_write(p, GpioReg::Imr1, set_if(edge == InterruptEdge::FallingEdge)),
        ],
        edge == InterruptEdge::EitherEdge ==> spec_interrupt_mode(p, spec_edge_mode(edge))
            == seq![
            pin_write(p, GpioReg::Imr0, RegAction::ClearBits),
            pin_write(p, GpioReg::Imr1, RegAction::ClearBits),
        ],
{
    lemma_mode_bits();
}

/// A pin is named by its port and bit: the pair identifies it, and the bit
/// is within its port's pins (below 32; port B has bits 0 to 9, 12 and 13,
/// port E bits 0 to 5).
pub proof fn pin_named_by_port_and_bit(p: Pin)
    ensures
        spec_pin_at(spec_pin_port(p), spec_pin_bit(p)) == Some(p),
        spec_pin_port(p) <= 4,
        spec_pin_bit(p) < 32,
        spec_pin_port(p) == 1 ==> spec_pin_bit(p) < 10 || spec_pin_bit(p) == 12 || spec_pin_bit(p) == 13,
        spec_pin_port(p) == 4 ==> spec_pin_bit(p) < 6,
{
}

/// Two pins with the same port and bit are the same pin, so a port never
/// reports one pin's interrupt to another.
pub proof fn pins_distinct(a: Pin, b: Pin)
    ensures
        spec_pin_port(a) == spec_pin_port(b) && spec_pin_bit(a) == spec_pin_bit(b) ==> a == b,
{
    pin_named_by_port_and_bit(a);
    pin_named_by_port_and_bit(b);
}

} // verus!
