# SAM V71 Xplained Ultra: verified drivers and capsules

The drivers of the ATSAMV71Q21B microcontroller and the capsules the board
runs on it, with their decisions and encodings proved in Verus.

Every driver is a state machine: a call or an interrupt (with the register
values it reads) produces the next state, the register accesses to perform,
in order, and the buffers or callbacks it finishes with, and the contracts
state them.

The capsules drive lower layers (a CAN controller, its filters, a
subscriber, an I2C device) through traits that the board implements. Each
trait keeps a record of the requests it was given; the capsules' contracts
say which requests they make, with which arguments, and what they do with
each answer. What a lower layer answers is its own.

- `src/`: the library.
  - `error`, `hil_can`, `hil_i2c`: shared vocabulary and the controller
    interfaces the capsules drive.
  - `virtual_can`, `can_capsule`: sharing one CAN controller between
    clients, and the system-call driver for processes (opt-in reception,
    fair transmission, hardware filters and lower-layer subscriptions that
    cover the subscriptions).
  - `mcan`, `twihs`, `uart`, `xdmac`, `tc`, `pmc`, `wdt`, `gpbr`, `gpio`,
    `efc`, `nvic`, `chip`: the chip's peripherals.
  - `at24mac402`: the EEPROM with the board's MAC address.
  - `credentials`, `bl_reboot`: application identity and the reboot driver
    that only a signed application may use.
- `tests/`: tests of the library on concrete values.
- `app/`: the board's bring-up, performing the drivers' register accesses.
