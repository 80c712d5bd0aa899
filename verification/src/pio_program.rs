//! PIO machine code and how it is written down.
//!
//! A PIO instruction word has a 3-bit opcode, five bits of side-set value and
//! delay, and eight operand bits.
use vstd::prelude::*;

verus! {

/// A PIO program ready to be loaded.
///
/// Jump targets and the wrap addresses count from the start of the program.
#[derive(Debug, Clone, Copy)]
pub struct PioProgram<const N: usize> {
    /// Instruction words.
    pub code: [u16; N],
    /// Address at which the program must be loaded, if it is not relocatable.
    pub origin: Option<u8>,
    /// Address to which execution wraps.
    pub wrap_target: u8,
    /// Address behind which execution wraps.
    pub wrap_source: u8,
    /// Number of side-set pins; every instruction carries a side-set value then.
    pub side_set_bits: u8,
}

/// `JMP` conditions.
pub const JMP_ALWAYS: u16 = 0;

/// Scratch X is zero.
pub const JMP_NOT_X: u16 = 1;

/// Scratch X is not zero; X is decremented afterwards.
pub const JMP_X_DEC: u16 = 2;

/// Scratch Y is zero.
pub const JMP_NOT_Y: u16 = 3;

/// Scratch Y is not zero; Y is decremented afterwards.
pub const JMP_Y_DEC: u16 = 4;

/// The jump pin is high.
pub const JMP_PIN: u16 = 6;

/// Pins, as a source or destination.
pub const PINS: u16 = 0;

/// Scratch X, as a source or destination.
pub const SCRATCH_X: u16 = 1;

/// Scratch Y, as a source or destination.
pub const SCRATCH_Y: u16 = 2;

/// Zeros, as a source.
pub const NULL: u16 = 3;

/// Pin directions, as a destination.
pub const PINDIRS: u16 = 4;

/// The program counter, as a destination of `OUT`.
pub const PROGRAM_COUNTER: u16 = 5;

/// The input shift register.
pub const ISR: u16 = 6;

/// The output shift register.
pub const OSR: u16 = 7;

/// `jmp <cond> <addr>`
pub open spec fn jmp(cond: u16, addr: u16) -> u16 {
    cond << 5 | addr
}

/// `wait 1 irq <flag>`
pub open spec fn wait_irq(flag: u16) -> u16 {
    0x20C0 | flag
}

/// `in <source>, <count>`
pub open spec fn shift_in(source: u16, count: u16) -> u16 {
    0x4000 | source << 5 | count
}

/// `out <destination>, <count>`
pub open spec fn shift_out(destination: u16, count: u16) -> u16 {
    0x6000 | destination << 5 | count
}

/// `mov <destination>, <source>`
pub open spec fn mov(destination: u16, source: u16) -> u16 {
    0xA000 | destination << 5 | source
}

/// `mov <destination>, !<source>`
pub open spec fn mov_not(destination: u16, source: u16) -> u16 {
    0xA008 | destination << 5 | source
}

/// `irq <flag>`
pub open spec fn irq(flag: u16) -> u16 {
    0xC000 | flag
}

/// `irq wait <flag>`
pub open spec fn irq_wait(flag: u16) -> u16 {
    0xC020 | flag
}

/// `set <destination>, <value>`
pub open spec fn set(destination: u16, value: u16) -> u16 {
    0xE000 | destination << 5 | value
}

/// An instruction followed by a delay, `[cycles]`.
pub open spec fn delay(instr: u16, cycles: u16) -> u16 {
    instr | cycles << 8
}

/// An instruction with a 2-bit side-set value.
pub open spec fn side(instr: u16, value: u16) -> u16 {
    instr | value << 11
}

} // verus!
