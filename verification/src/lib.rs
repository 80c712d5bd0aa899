//! Host side of a low-/full-speed USB root port driven by one RP2040/RP235x PIO block.
//!
//! The crate holds what such a port decides and computes, with proofs: packets and
//! their line code ([`crc`], [`line_code`], [`encoding`]), the PIO programs that play
//! and decode it ([`tx_pio`], [`rx_pio`]) and what these do cycle by cycle
//! ([`tx_timing`], [`rx_timing`]), the order in which the hardware is driven
//! ([`tx_driver`], [`rx_driver`], [`transaction`]), the root port ([`bus`]) and control
//! transfers over it ([`control`]). Registers, timers and waiting are left to the
//! caller, who performs the steps that are asked for and reports what came of them.

pub mod bits;
pub mod bus;
pub mod chip;
pub mod clock;
pub mod control;
pub mod crc;
pub mod encoding;
pub mod frame_counter;
pub mod line_code;
pub mod pid;
pub mod pio_program;
pub mod ram;
pub mod rx_driver;
pub mod rx_pio;
pub mod rx_timing;
pub mod transaction;
pub mod tx_driver;
pub mod tx_pio;
pub mod tx_timing;
pub mod types;

pub use bus::Pulldown;
