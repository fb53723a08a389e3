//! Drivers and capsules for the SAM V71 Xplained Ultra board, with their
//! decisions and encodings verified.
pub mod error;
pub mod hil_can;
pub mod hil_i2c;
pub mod virtual_can;
pub mod can_capsule;
pub mod mcan;
pub mod efc;
pub mod twihs;
pub mod xdmac;
pub mod uart;
pub mod at24mac402;
pub mod gpbr;
pub mod wdt;
pub mod credentials;
pub mod bl_reboot;
pub mod pmc;
pub mod tc;
pub mod gpio;
pub mod nvic;
pub mod chip;
