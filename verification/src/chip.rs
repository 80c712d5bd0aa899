//! Chip-family differences in GPIO numbering.
//!
//! RP2040 numbers its pins 0..31 everywhere. RP235x splits BANK0 over several SIO
//! input registers, and its PIO blocks see a window of 32 pins that starts at
//! GPIO 0 or, with `GPIOBASE` set, at GPIO 16.
use vstd::prelude::*;

verus! {

/// Chip family.
#[derive(Debug, Clone, Copy, PartialEq, Eq, Structural)]
pub enum Chip {
    /// RP2040
    Rp2040,
    /// RP235xA or RP235xB
    Rp235x,
}

/// First system GPIO of the high PIO window.
pub const HIGH_WINDOW_BASE: u8 = 16;

/// The SIO input register of a pin, and the pin's bit in it.
pub open spec fn sio_place(chip: Chip, pin: u8) -> (int, int) {
    match chip {
        Chip::Rp2040 => (0, pin as int),
        Chip::Rp235x => (pin as int / 32, pin as int % 32),
    }
}

/// The SIO input register that holds a BANK0 pin.
///
/// RP2040 has one SIO input register for all exposed BANK0 pins; RP235x selects
/// the register by GPIO number / 32.
pub fn sio_gpio_bank(chip: Chip, pin: u8) -> (bank: usize)
    ensures
        bank == sio_place(chip, pin).0,
{
    match chip {
        Chip::Rp2040 => 0,
        Chip::Rp235x => (pin / 32) as usize,
    }
}

/// Bit index of a BANK0 pin within its SIO input register.
pub fn sio_gpio_bit(chip: Chip, pin: u8) -> (bit: u8)
    ensures
        bit == sio_place(chip, pin).1,
{
    match chip {
        Chip::Rp2040 => pin,
        Chip::Rp235x => pin % 32,
    }
}

/// The level of a pin in the contents of its SIO input register.
///
/// The level includes any configured GPIO input override, which is what speed
/// detection wants.
pub fn gpio_input_level(chip: Chip, pin: u8, gpio_in: u32) -> (high: bool)
    requires
        chip is Rp2040 ==> pin < 32,
    ensures
        high == ((gpio_in >> (sio_place(chip, pin).1 as u32)) & 1 == 1),
{
    let bit = sio_gpio_bit(chip, pin);
    let shift = bit as u32;
    assert((gpio_in & (1u32 << shift) != 0) == ((gpio_in >> shift) & 1 == 1)) by (bit_vector)
        requires
            shift < 32,
    ;
    gpio_in & (1u32 << bit) != 0
}

/// Both pins of the pair are below GPIO 32.
pub open spec fn in_low_window(dp_pin: u8, dm_pin: u8) -> bool {
    dp_pin < 32 && dm_pin < 32
}

/// Both pins of the pair are at or above GPIO 16.
pub open spec fn in_high_window(dp_pin: u8, dm_pin: u8) -> bool {
    dp_pin >= HIGH_WINDOW_BASE && dm_pin >= HIGH_WINDOW_BASE
}

/// The pair fits one of the windows that the chip offers.
pub open spec fn pair_fits(chip: Chip, dp_pin: u8, dm_pin: u8) -> bool {
    chip is Rp2040 || in_low_window(dp_pin, dm_pin) || in_high_window(dp_pin, dm_pin)
}

/// Whether the pair is reached through the high window: only where it is needed.
pub open spec fn uses_high_window(chip: Chip, dp_pin: u8, dm_pin: u8) -> bool {
    chip is Rp235x && !in_low_window(dp_pin, dm_pin)
}

/// Whether the USB D+/D- pair fits one PIO GPIO window.
pub fn pins_fit_window(chip: Chip, dp_pin: u8, dm_pin: u8) -> (fits: bool)
    ensures
        fits == pair_fits(chip, dp_pin, dm_pin),
{
    match chip {
        Chip::Rp2040 => true,
        Chip::Rp235x => (dp_pin < 32 && dm_pin < 32) || (dp_pin >= HIGH_WINDOW_BASE && dm_pin
            >= HIGH_WINDOW_BASE),
    }
}

/// Select the PIO GPIO window that contains the USB D+/D- pair.
///
/// RP2040 PIO pin selectors are absolute GPIO numbers; no `GPIOBASE` exists.
/// RP235x PIO state machines still use 5-bit pin selectors, but `GPIOBASE`
/// can relocate PIO-local GPIO 0 to system GPIO 16. The pair must therefore fit
/// entirely in either the low window (`<32`) or the high window (`>=16`). Returns
/// `true` when the high window is selected: only for a pair that does not fit the
/// low one.
pub fn configure_pio_gpio_base(chip: Chip, dp_pin: u8, dm_pin: u8) -> (high_window: bool)
    requires
        pair_fits(chip, dp_pin, dm_pin),
    ensures
        high_window == uses_high_window(chip, dp_pin, dm_pin),
        high_window ==> in_high_window(dp_pin, dm_pin),
{
    match chip {
        Chip::Rp2040 => false,
        Chip::Rp235x => !(dp_pin < 32 && dm_pin < 32),
    }
}

/// PIO-local number of a pin: relative to GPIO 16 in the high window.
pub fn pio_local_pin(pin: u8, gpio_high_window: bool) -> (local: u8)
    requires
        gpio_high_window ==> pin >= HIGH_WINDOW_BASE,
    ensures
        local == local_pin(pin, gpio_high_window),
{
    if gpio_high_window {
        pin - HIGH_WINDOW_BASE
    } else {
        pin
    }
}

/// PIO-local number of a pin.
pub open spec fn local_pin(pin: u8, gpio_high_window: bool) -> int {
    if gpio_high_window {
        pin - HIGH_WINDOW_BASE
    } else {
        pin as int
    }
}

/// Registers and bits number the pins through: 32 to a register, and on RP2040, whose
/// pins all have numbers below 32, only one register.
pub proof fn law_sio_registers_number_pins(chip: Chip, pin: u8)
    requires
        chip is Rp2040 ==> pin < 32,
    ensures
        32 * sio_place(chip, pin).0 + sio_place(chip, pin).1 == pin,
        0 <= sio_place(chip, pin).1 < 32,
        0 <= sio_place(chip, pin).0,
        pin < 32 ==> sio_place(chip, pin).0 == 0,
{
}

/// A pair on RP235x fits unless one pin is below GPIO 16 and the other above GPIO 31; on
/// RP2040 every pair does.
pub proof fn law_pairs_that_fit(chip: Chip, dp_pin: u8, dm_pin: u8)
    ensures
        pair_fits(chip, dp_pin, dm_pin) <==> chip is Rp2040 || !(dp_pin < 16 && dm_pin >= 32 || dm_pin < 16
            && dp_pin >= 32),
        (dp_pin - dm_pin == 1 || dm_pin - dp_pin == 1) ==> pair_fits(chip, dp_pin, dm_pin),
{
}

/// In the selected window, both pins of a pair on the chip's GPIOs (0..47) have
/// PIO-local numbers that fit a 5-bit pin selector, and adjacent pins stay
/// adjacent in the same order.
pub proof fn law_window_keeps_pair(dp_pin: u8, dm_pin: u8)
    requires
        pair_fits(Chip::Rp235x, dp_pin, dm_pin),
        dp_pin < 48,
        dm_pin < 48,
    ensures
        ({
            let high = !in_low_window(dp_pin, dm_pin);
            &&& 0 <= local_pin(dp_pin, high) < 32
            &&& 0 <= local_pin(dm_pin, high) < 32
            &&& local_pin(dp_pin, high) - local_pin(dm_pin, high) == dp_pin - dm_pin
        }),
{
}

/// The PIO-local numbers of a pair fit a 5-bit pin selector on both chips and count from
/// the first pin of its window, GPIO 0 or GPIO 16. The high window is selected exactly for
/// a pin that the low one lacks.
pub proof fn law_window_counts_from_its_base(chip: Chip, dp_pin: u8, dm_pin: u8)
    requires
        pair_fits(chip, dp_pin, dm_pin),
        dp_pin < 48,
        dm_pin < 48,
        chip is Rp2040 ==> dp_pin < 32 && dm_pin < 32,
    ensures
        ({
            let high = uses_high_window(chip, dp_pin, dm_pin);
            let base: int = if high {
                16
            } else {
                0
            };
            &&& 0 <= local_pin(dp_pin, high) < 32
            &&& 0 <= local_pin(dm_pin, high) < 32
            &&& local_pin(dp_pin, high) + base == dp_pin
            &&& local_pin(dm_pin, high) + base == dm_pin
            &&& high <==> dp_pin >= 32 || dm_pin >= 32
        }),
{
}

} // verus!
