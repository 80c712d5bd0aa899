//! The transmit PIO player.
//!
//! Software hands the player 2-bit symbols; each is the address of the slot that
//! drives the line accordingly.
use crate::line_code;
use crate::pio_program;
use crate::pio_program::PioProgram;
use vstd::prelude::*;

verus! {

/// Pre-encoded start instruction for the TX program whose J state has the lower GPIO high.
///
/// The CPU executes this before loading/enabling each packet: `JMP 4` to the
/// `start:` slot (`set pindirs, 0b11`) with side-set `0b01`, which drives the
/// lower of the two GPIOs high. This reasserts D+/D- as outputs because the
/// packet stream's `COMP` symbol releases the bus after EOP.
pub const TX_START_INSTR_J_HIGH_ON_LOWER: u16 = 0x0804;

/// Pre-encoded start instruction for the TX program whose J state has the higher GPIO high.
///
/// This is the same jump as [`TX_START_INSTR_J_HIGH_ON_LOWER`] but with side-set
/// `0b10`, which drives the higher of the two GPIOs high.
pub const TX_START_INSTR_J_HIGH_ON_HIGHER: u16 = 0x1004;

/// The player's text, `j` and `k` being the side-set values of the line states.
pub open spec fn player_code(j: u16, k: u16) -> Seq<u16> {
    seq![
        // addr 0: EOP; raise IRQ, drive SE0 (both low), then fall through.
        pio_program::delay(pio_program::side(pio_program::irq(0), 0), 7),
        // addr 1: fetch next symbol, J.
        pio_program::delay(
            pio_program::side(pio_program::shift_out(pio_program::PROGRAM_COUNTER, 2), j),
            3,
        ),
        // addr 2: COMP; release the bus (pindirs := inputs), J.
        pio_program::delay(pio_program::side(pio_program::set(pio_program::PINDIRS, 0), j), 3),
        // addr 3: fetch next symbol, K.
        pio_program::delay(
            pio_program::side(pio_program::shift_out(pio_program::PROGRAM_COUNTER, 2), k),
            3,
        ),
        // addr 4: start; drive the bus (pindirs := outputs), J.
        pio_program::side(pio_program::set(pio_program::PINDIRS, 3), j),
    ]
}

/// Fixed at origin 0, wrapping over the slots behind the EOP one, with a side-set
/// value for the two lines in every instruction.
pub open spec fn is_player<const N: usize>(p: PioProgram<N>) -> bool {
    &&& p.origin == Some(0u8)
    &&& p.wrap_target == 1
    &&& p.wrap_source == 4
    &&& p.side_set_bits == 2
}

/// TX PIO player where logical J is `lower high, higher low`.
///
/// This program is intentionally fixed at origin 0: `out pc, 2` loads absolute
/// symbol addresses 0..3, so it is not relocatable. Address 0 emits the EOP SE0
/// slot; packets therefore start by executing [`TX_START_INSTR_J_HIGH_ON_LOWER`]
/// rather than by jumping to origin 0. USB low-/full-speed EOP is specified in
/// USB 2.0 §7.1.7.2.
pub fn usb_tx_j_high_on_lower_program() -> (p: PioProgram<5>)
    ensures
        p.code@ == player_code(1, 2),
        is_player(p),
{
    let code: [u16; 5] = [0xC700, 0x6BA2, 0xEB80, 0x73A2, 0xE883];
    proof {
        assert(0xC700u16 == pio_program::delay(pio_program::side(pio_program::irq(0), 0), 7) && 0x6BA2u16
            == pio_program::delay(pio_program::side(pio_program::shift_out(5, 2), 1), 3) && 0xEB80u16
            == pio_program::delay(pio_program::side(pio_program::set(4, 0), 1), 3) && 0x73A2u16
            == pio_program::delay(pio_program::side(pio_program::shift_out(5, 2), 2), 3) && 0xE883u16
            == pio_program::side(pio_program::set(4, 3), 1)) by (bit_vector);
        assert(code@ =~= player_code(1, 2));
    }
    PioProgram { code, origin: Some(0), wrap_target: 1, wrap_source: 4, side_set_bits: 2 }
}

/// TX PIO player where logical J is `lower low, higher high`.
///
/// This is the mirror image of [`usb_tx_j_high_on_lower_program`]: target 1 is
/// still logical idle J, but the high line is the higher GPIO. This supports both
/// direct low-speed signalling (where J is D-) and physically reversed D-/D+ wiring.
/// SE0 (`0b00`) is unchanged: both lines low is "single-ended zero" at either
/// speed, so the EOP/COMP framing is untouched.
///
/// The side-set values are baked into the program because pins are driven as a
/// consecutive, ascending range, and an output-invert override would corrupt SE0
/// into both-high.
/// Loaded at **origin 0**; start each packet with [`TX_START_INSTR_J_HIGH_ON_HIGHER`].
pub fn usb_tx_j_high_on_higher_program() -> (p: PioProgram<5>)
    ensures
        p.code@ == player_code(2, 1),
        is_player(p),
{
    let code: [u16; 5] = [0xC700, 0x73A2, 0xF380, 0x6BA2, 0xF083];
    proof {
        assert(0xC700u16 == pio_program::delay(pio_program::side(pio_program::irq(0), 0), 7) && 0x73A2u16
            == pio_program::delay(pio_program::side(pio_program::shift_out(5, 2), 2), 3) && 0xF380u16
            == pio_program::delay(pio_program::side(pio_program::set(4, 0), 2), 3) && 0x6BA2u16
            == pio_program::delay(pio_program::side(pio_program::shift_out(5, 2), 1), 3) && 0xF083u16
            == pio_program::side(pio_program::set(4, 3), 2)) by (bit_vector);
        assert(code@ =~= player_code(2, 1));
    }
    PioProgram { code, origin: Some(0), wrap_target: 1, wrap_source: 4, side_set_bits: 2 }
}

/// The side-set value of an instruction of the player, the lower pin in bit 0.
pub open spec fn side_value(instr: u16) -> u16 {
    (instr >> 11) & 3
}

/// The slot at each symbol's address drives the lines as the symbol says: SE0 both
/// low, J and K the one or the other high, and COMP releases the pins. The start
/// instruction jumps behind the symbol slots with the lines in state J.
pub proof fn law_symbols_address_their_slots(j: u16, k: u16)
    requires
        j == 1 && k == 2 || j == 2 && k == 1,
    ensures
        ({
            let code = player_code(j, k);
            &&& side_value(code[line_code::SYM_SE0 as int]) == 0
            &&& side_value(code[line_code::SYM_J as int]) == j
            &&& side_value(code[line_code::SYM_K as int]) == k
            &&& code[line_code::SYM_COMP as int] == pio_program::delay(
                pio_program::side(pio_program::set(pio_program::PINDIRS, 0), j),
                3,
            )
            &&& (if j == 1 {
                TX_START_INSTR_J_HIGH_ON_LOWER
            } else {
                TX_START_INSTR_J_HIGH_ON_HIGHER
            }) == pio_program::side(pio_program::jmp(pio_program::JMP_ALWAYS, 4), j)
        }),
{
    assert(side_value(pio_program::delay(pio_program::side(pio_program::irq(0), 0), 7)) == 0
        && side_value(pio_program::delay(pio_program::side(pio_program::shift_out(5, 2), j), 3)) == j
        && side_value(pio_program::delay(pio_program::side(pio_program::shift_out(5, 2), k), 3)) == k
        && (if j == 1 { 0x0804u16 } else { 0x1004u16 }) == pio_program::side(pio_program::jmp(0, 4), j))
        by (bit_vector)
        requires
            j == 1 && k == 2 || j == 2 && k == 1,
    ;
}

} // verus!
