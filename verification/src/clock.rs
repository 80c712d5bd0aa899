//! Clock dividers of the PIO state machines.
use crate::rx_driver::{DET_CLOCK_HZ_FS, DET_CLOCK_HZ_LS};
use crate::tx_driver::{TX_CLOCK_HZ_FS, TX_CLOCK_HZ_LS};
use fixed::types::extra::U8;
use fixed::FixedU32;
use vstd::prelude::*;

verus! {

/// `fixed::FixedU32`: the fixed-point number type in which a state-machine
/// configuration takes its divider.
#[verifier::external_type_specification]
#[verifier::external_body]
#[verifier::reject_recursive_types(Frac)]
pub struct ExFixedU32<Frac>(fixed::FixedU32<Frac>);

/// `typenum::UInt`: binary digits, of which the number of fractional bits in the
/// divider's type is made.
#[verifier::external_type_specification]
#[verifier::external_body]
#[verifier::reject_recursive_types(U)]
#[verifier::reject_recursive_types(B)]
pub struct ExUInt<U, B>(typenum::UInt<U, B>);

/// `typenum::UTerm`: the empty string of digits.
#[verifier::external_type_specification]
#[verifier::external_body]
pub struct ExUTerm(typenum::UTerm);

/// `typenum::B0`: the digit zero.
#[verifier::external_type_specification]
#[verifier::external_body]
pub struct ExB0(typenum::B0);

/// `typenum::B1`: the digit one.
#[verifier::external_type_specification]
#[verifier::external_body]
pub struct ExB1(typenum::B1);

/// The fixed-point number whose raw bits are `bits`: what
/// `fixed::FixedU32::<U8>::from_bits` returns.
pub uninterp spec fn fixed_of_bits(bits: u32) -> FixedU32<U8>;

/// Calls `fixed::FixedU32::<U8>::from_bits`.
///
/// Claims that the number depends on the raw bits alone; it has them as its
/// representation, so its value is `bits / 256`.
#[verifier::external_body]
fn fixed_from_bits(bits: u32) -> (d: FixedU32<U8>)
    ensures
        d == fixed_of_bits(bits),
{
    FixedU32::<U8>::from_bits(bits)
}

/// Largest divider that the hardware takes, 65536, in units of 1/256.
pub const MAX_DIVIDER_BITS: u64 = 0x100_0000;

/// The ratio of the two clocks in units of 1/256, rounded to the nearest.
pub open spec fn divider_bits(clk_sys_hz: u32, target_hz: u32) -> int {
    (256 * clk_sys_hz + target_hz as int / 2) / target_hz as int
}

/// The raw bits of the 16.8 fixed-point divider for `target_hz`.
pub fn pio_clkdiv_bits(clk_sys_hz: u32, target_hz: u32) -> (bits: u64)
    requires
        target_hz > 0,
    ensures
        bits == divider_bits(clk_sys_hz, target_hz),
{
    assert((clk_sys_hz as u64) << 8 == 256 * clk_sys_hz) by (bit_vector);
    let bits = ((clk_sys_hz as u64) << 8) + (target_hz as u64 / 2);
    bits / target_hz as u64
}

/// Calculate a PIO state-machine clock divider for `target_hz`.
///
/// RP PIO state machines are clocked from `clk_sys` through a 16.8 fixed-point
/// divider. The value is rounded to the nearest representable divider, which is
/// precise enough for the USB rates used here when `clk_sys` comes from the
/// normal crystal/PLL clock tree. The clocks must be initialized, the target must
/// not be above `clk_sys`, and the divider must be in the hardware range.
pub fn pio_clkdiv_for(clk_sys_hz: u32, target_hz: u32) -> (d: FixedU32<U8>)
    requires
        clk_sys_hz != 0,
        clk_sys_hz >= target_hz > 0,
        divider_bits(clk_sys_hz, target_hz) <= MAX_DIVIDER_BITS,
    ensures
        d == fixed_of_bits(divider_bits(clk_sys_hz, target_hz) as u32),
{
    let bits = pio_clkdiv_bits(clk_sys_hz, target_hz);
    fixed_from_bits(bits as u32)
}

/// No other divider brings the state machine closer to the requested clock: the
/// rounding error is at most half a unit. And the divider never speeds a clock up.
pub proof fn law_divider_is_nearest(clk_sys_hz: u32, target_hz: u32)
    requires
        clk_sys_hz >= target_hz > 0,
    ensures
        -(target_hz as int) <= 2 * (divider_bits(clk_sys_hz, target_hz) * target_hz - 256 * clk_sys_hz)
            <= target_hz,
        divider_bits(clk_sys_hz, target_hz) >= 256,
{
    let c = 256 * clk_sys_hz;
    let t = target_hz as int;
    let n = c + t / 2;
    let q = n / t;
    assert(q * t <= n < q * t + t) by (nonlinear_arith)
        requires
            q == n / t,
            t > 0,
    ;
    assert(q >= 256) by (nonlinear_arith)
        requires
            n < q * t + t,
            n >= 256 * t,
            t > 0,
    ;
}

/// The divider is a whole number of 256ths, the nearest one and the upper of two that are
/// as near, whatever the clocks: no other number meets this.
pub proof fn law_divider_rounds_half_up(clk_sys_hz: u32, target_hz: u32)
    requires
        target_hz > 0,
    ensures
        -(target_hz as int) < 2 * (divider_bits(clk_sys_hz, target_hz) * target_hz - 256 * clk_sys_hz)
            <= target_hz,
{
    let t = target_hz as int;
    let n = 256 * clk_sys_hz + t / 2;
    let q = n / t;
    assert(q * t <= n < q * t + t) by (nonlinear_arith)
        requires
            q == n / t,
            t > 0,
    ;
}

/// Whether a state machine can be clocked at `target_hz`.
pub open spec fn reachable(clk_sys_hz: u32, target_hz: u32) -> bool {
    &&& clk_sys_hz >= target_hz
    &&& divider_bits(clk_sys_hz, target_hz) <= MAX_DIVIDER_BITS
}

/// The clocks that the state machines need at either speed can all be had if and
/// only if the system clock is at least 96 MHz.
pub proof fn law_system_clock_requirement(clk_sys_hz: u32)
    ensures
        clk_sys_hz >= 96_000_000 <==> {
            &&& reachable(clk_sys_hz, TX_CLOCK_HZ_FS)
            &&& reachable(clk_sys_hz, TX_CLOCK_HZ_LS)
            &&& reachable(clk_sys_hz, DET_CLOCK_HZ_FS)
            &&& reachable(clk_sys_hz, DET_CLOCK_HZ_LS)
        },
{
}

} // verus!
