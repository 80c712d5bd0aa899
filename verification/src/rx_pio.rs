//! RX PIO programs: edge detector plus NRZI decoder.
//!
//! Two state machines cooperate through PIO IRQ flags. The edge detector runs at
//! 8x the USB bit rate, identifies SOP/EOP, and raises [`DECODER_TRIGGER`] once
//! per bit. The decoder samples the inverted line on each trigger, reverses NRZI
//! encoding (USB 2.0 §7.1.8), drops stuffed bits (§7.1.9), and pushes decoded
//! bytes into its RX FIFO.
//!
//! Both D+ and D- GPIO inputs are inverted before reaching PIO. The programs use
//! relative branches and IRQs only, so unlike the TX player they can be loaded at
//! any instruction-memory offset.
use crate::line_code;
use crate::pio_program;
use crate::pio_program::PioProgram;
use vstd::prelude::*;

verus! {

/// RX end-of-packet IRQ flag raised after detecting SE0.
pub const IRQ_RX_EOP: u8 = 2;

/// RX packet-start IRQ flag raised after detecting SOP.
pub const IRQ_RX_START: u8 = 3;

/// Edge-detector to decoder per-bit trigger IRQ flag.
pub const DECODER_TRIGGER: u8 = 4;

/// Mask of all RX IRQ flags used by the two RX state machines.
pub const IRQ_RX_ALL: u8 = 0x1C;

/// Mask of the flags that arming the receiver clears: packet start and trigger.
pub const IRQ_RX_ARM: u8 = 0x18;

/// Decoder prime instruction `mov osr, !null` (OSR := all-ones): `in osr, 1`
/// then injects a steady `1` for the NRZI "no transition" case. Run once via
/// `exec_instr` before enabling the decoder. Encoding: MOV(101) dest OSR(111)
/// op INVERT(01) src NULL(011).
pub const DECODER_PRIME_OSR: u16 = 0xA0EB;

/// Decoder prime instruction `set x, 0` (NRZI state := 0). Encoding: SET(111)
/// dest X(001) data 0.
pub const DECODER_PRIME_X: u16 = 0xE020;

/// The edge detector's text.
pub open spec fn edge_detector_code() -> Seq<u16> {
    seq![
        // eop:
        pio_program::irq_wait(2),
        // start: wait for the falling edge (SOP)
        pio_program::jmp(pio_program::JMP_PIN, 1),
        pio_program::delay(pio_program::irq(3), 1),
        // pin_still_low: clock the NRZI decoder
        pio_program::delay(pio_program::irq(4), 1),
        // pin_low:
        pio_program::jmp(pio_program::JMP_PIN, 12),
        pio_program::jmp(pio_program::JMP_PIN, 12),
        // pin_went_low:
        pio_program::jmp(pio_program::JMP_PIN, 12),
        pio_program::jmp(pio_program::JMP_PIN, 12),
        pio_program::jmp(pio_program::JMP_PIN, 12),
        pio_program::jmp(pio_program::JMP_PIN, 12),
        // pin_still_high:
        pio_program::delay(pio_program::mov(pio_program::SCRATCH_X, pio_program::ISR), 1),
        // both inputs high (inverted): SE0, EOP
        pio_program::jmp(pio_program::JMP_X_DEC, 0),
        // pin_went_high:
        pio_program::delay(pio_program::mov(pio_program::ISR, pio_program::NULL), 1),
        pio_program::irq(4),
        // capture the pin to check for EOP
        pio_program::shift_in(pio_program::PINS, 1),
        pio_program::jmp(pio_program::JMP_PIN, 10),
        pio_program::jmp(pio_program::JMP_ALWAYS, 6),
    ]
}

/// The NRZI decoder's text.
pub open spec fn nrzi_decoder_code() -> Seq<u16> {
    seq![
        // start, set_y: (`set x, 0` is done before enabling, not here)
        pio_program::set(pio_program::SCRATCH_Y, 6),
        // irq_wait: wait for the edge detector
        pio_program::wait_irq(4),
        // drop the stuff bit (no error check)
        pio_program::jmp(pio_program::JMP_NOT_Y, 6),
        pio_program::jmp(pio_program::JMP_PIN, 7),
        // pin_low:
        pio_program::jmp(pio_program::JMP_NOT_X, 8),
        // K2, J1:
        pio_program::shift_in(pio_program::NULL, 1),
        // flip:
        pio_program::mov_not(pio_program::SCRATCH_X, pio_program::SCRATCH_X),
        // pin_high:
        pio_program::jmp(pio_program::JMP_NOT_X, 5),
        // J2, K1:
        pio_program::shift_in(pio_program::OSR, 1),
        // y is never 0 here
        pio_program::jmp(pio_program::JMP_Y_DEC, 1),
    ]
}

/// The words of the edge detector's text.
pub proof fn lemma_detector_text()
    ensures
        edge_detector_code() == seq![
            0xC022u16, 0x00C1, 0xC103, 0xC104, 0x00CC, 0x00CC, 0x00CC, 0x00CC, 0x00CC, 0x00CC, 0xA126, 0x0040,
            0xA1C3, 0xC004, 0x4001, 0x00CA, 0x0006,
        ],
{
    assert(0xC022u16 == pio_program::irq_wait(2) && 0x00C1u16 == pio_program::jmp(6, 1) && 0xC103u16
        == pio_program::delay(pio_program::irq(3), 1) && 0xC104u16 == pio_program::delay(
        pio_program::irq(4),
        1,
    ) && 0x00CCu16 == pio_program::jmp(6, 12) && 0xA126u16 == pio_program::delay(
        pio_program::mov(1, 6),
        1,
    ) && 0x0040u16 == pio_program::jmp(2, 0) && 0xA1C3u16 == pio_program::delay(
        pio_program::mov(6, 3),
        1,
    ) && 0xC004u16 == pio_program::irq(4) && 0x4001u16 == pio_program::shift_in(0, 1) && 0x00CAu16
        == pio_program::jmp(6, 10) && 0x0006u16 == pio_program::jmp(0, 6)) by (bit_vector);
}

/// Build the edge-detector PIO program.
///
/// At full speed it runs at 96 MHz, an 8x oversample of the 12 Mb/s bit rate.
/// `in_pin` and `jmp_pin` are configured by [`crate::rx_driver::RxDriver`] for
/// the current speed; the low-speed configuration swaps the sensed lines.
pub fn usb_edge_detector_program() -> (p: PioProgram<17>)
    ensures
        p.code@ == edge_detector_code(),
        p.origin is None,
        p.wrap_target == 3,
        p.wrap_source == 9,
        p.side_set_bits == 0,
{
    let code: [u16; 17] = [
        0xC022, 0x00C1, 0xC103, 0xC104, 0x00CC, 0x00CC, 0x00CC, 0x00CC, 0x00CC, 0x00CC, 0xA126, 0x0040,
        0xA1C3, 0xC004, 0x4001, 0x00CA, 0x0006,
    ];
    proof {
        lemma_detector_text();
        assert(code@ =~= edge_detector_code());
    }
    PioProgram { code, origin: None, wrap_target: 3, wrap_source: 9, side_set_bits: 0 }
}

/// Build the NRZI decoder PIO program.
///
/// The decoder runs as fast as PIO allows but advances only on
/// [`DECODER_TRIGGER`]. Before enabling, prime it with [`DECODER_PRIME_OSR`] and
/// [`DECODER_PRIME_X`]; configure shift-right autopush with threshold 8.
pub fn usb_nrzi_decoder_program() -> (p: PioProgram<10>)
    ensures
        p.code@ == nrzi_decoder_code(),
        p.origin is None,
        p.wrap_target == 0,
        p.wrap_source == 6,
        p.side_set_bits == 0,
{
    let code: [u16; 10] = [
        0xE046, 0x20C4, 0x0066, 0x00C7, 0x0028, 0x4061, 0xA029, 0x0025, 0x40E1, 0x0081,
    ];
    proof {
        assert(0xE046u16 == pio_program::set(2, 6) && 0x20C4u16 == pio_program::wait_irq(4) && 0x0066u16
            == pio_program::jmp(3, 6) && 0x00C7u16 == pio_program::jmp(6, 7) && 0x0028u16
            == pio_program::jmp(1, 8) && 0x4061u16 == pio_program::shift_in(3, 1) && 0xA029u16
            == pio_program::mov_not(1, 1) && 0x0025u16 == pio_program::jmp(1, 5) && 0x40E1u16
            == pio_program::shift_in(7, 1) && 0x0081u16 == pio_program::jmp(4, 1)) by (bit_vector);
        assert(code@ =~= nrzi_decoder_code());
    }
    PioProgram { code, origin: None, wrap_target: 0, wrap_source: 6, side_set_bits: 0 }
}

/// What the decoder state machine holds: program counter, scratch registers, and
/// the bits that it has shifted in.
pub struct Decoder {
    pub pc: int,
    pub x: u32,
    pub y: u32,
    pub bits: Seq<bool>,
}

impl Decoder {
    /// The decoder after the instruction `w` at its program counter, `pin` being
    /// the level of the sensed, inverted line.
    ///
    /// Covers the instructions that the decoder is made of. `OSR` is all ones,
    /// so `in osr, 1` shifts a one bit in.
    pub open spec fn execute(self, w: u16, pin: bool) -> Decoder {
        let next: int = if self.pc == 6 {
            0
        } else {
            self.pc + 1
        };
        let target = (w & 0x1f) as int;
        let operand = (w >> 5) & 7;
        if w >> 13 == 0 {
            let taken = if operand == pio_program::JMP_PIN {
                pin
            } else if operand == pio_program::JMP_NOT_X {
                self.x == 0
            } else if operand == pio_program::JMP_NOT_Y {
                self.y == 0
            } else {
                self.y != 0
            };
            let y = if operand == pio_program::JMP_Y_DEC {
                self.y.wrapping_sub(1)
            } else {
                self.y
            };
            let pc = if taken {
                target
            } else {
                next
            };
            Decoder { pc, y, ..self }
        } else if w >> 13 == 2 {
            Decoder { pc: next, bits: self.bits.push(operand == pio_program::OSR), ..self }
        } else if w >> 13 == 5 {
            Decoder { pc: next, x: !self.x, ..self }
        } else if w >> 13 == 7 {
            Decoder { pc: next, y: (w & 0x1f) as u32, ..self }
        } else {
            Decoder { pc: next, ..self }
        }
    }

    /// The decoder when it next waits for a trigger, within `fuel` instructions.
    pub open spec fn to_next_wait(self, pin: bool, fuel: nat) -> Decoder
        decreases fuel,
    {
        if fuel == 0 || self.pc == 1 {
            self
        } else {
            self.execute(nrzi_decoder_code()[self.pc], pin).to_next_wait(pin, (fuel - 1) as nat)
        }
    }

    /// The waiting decoder after one trigger.
    pub open spec fn triggered(self, pin: bool) -> Decoder {
        Decoder { pc: 2, ..self }.to_next_wait(pin, 8)
    }

    /// The decoder after a trigger for each line symbol. The inverted line is
    /// high in state K.
    pub open spec fn decode(self, syms: Seq<u8>) -> Decoder
        decreases syms.len(),
    {
        if syms.len() == 0 {
            self
        } else {
            self.decode(syms.drop_last()).triggered(syms.last() == line_code::SYM_K)
        }
    }
}

/// The decoder at the `start` label with `x` primed, run up to its first wait.
pub open spec fn primed_decoder() -> Decoder {
    Decoder { pc: 0, x: 0, y: 0, bits: Seq::empty() }.to_next_wait(false, 8)
}

/// What one trigger does: the bit behind six one bits is dropped and the line
/// taken to have changed; any other bit is one if the line has not changed.
pub proof fn lemma_decoder_trigger(d: Decoder, pin: bool)
    requires
        d.pc == 1,
        d.y <= 6,
        d.x == 0 || d.x == 0xffff_ffff,
    ensures
        d.triggered(pin) == (if d.y == 0 {
            Decoder { y: 6, x: !d.x, ..d }
        } else if pin == (d.x != 0) {
            Decoder { y: (d.y - 1) as u32, bits: d.bits.push(true), ..d }
        } else {
            Decoder { y: 6, x: !d.x, bits: d.bits.push(false), ..d }
        }),
{
    lemma_decoder_words();
    reveal_with_fuel(Decoder::to_next_wait, 9);
}

proof fn lemma_decoder_words()
    ensures
        ({
            let c = nrzi_decoder_code();
            &&& c[0] >> 13 == 7 && c[0] & 0x1f == 6
            &&& c[2] >> 13 == 0 && (c[2] >> 5) & 7 == 3 && c[2] & 0x1f == 6
            &&& c[3] >> 13 == 0 && (c[3] >> 5) & 7 == 6 && c[3] & 0x1f == 7
            &&& c[4] >> 13 == 0 && (c[4] >> 5) & 7 == 1 && c[4] & 0x1f == 8
            &&& c[5] >> 13 == 2 && (c[5] >> 5) & 7 == 3
            &&& c[6] >> 13 == 5
            &&& c[7] >> 13 == 0 && (c[7] >> 5) & 7 == 1 && c[7] & 0x1f == 5
            &&& c[8] >> 13 == 2 && (c[8] >> 5) & 7 == 7
            &&& c[9] >> 13 == 0 && (c[9] >> 5) & 7 == 4 && c[9] & 0x1f == 1
        }),
{
    assert(pio_program::set(2, 6) >> 13 == 7 && pio_program::set(2, 6) & 0x1f == 6
        && pio_program::jmp(3, 6) >> 13 == 0 && (pio_program::jmp(3, 6) >> 5) & 7 == 3
        && pio_program::jmp(3, 6) & 0x1f == 6
        && pio_program::jmp(6, 7) >> 13 == 0 && (pio_program::jmp(6, 7) >> 5) & 7 == 6
        && pio_program::jmp(6, 7) & 0x1f == 7
        && pio_program::jmp(1, 8) >> 13 == 0 && (pio_program::jmp(1, 8) >> 5) & 7 == 1
        && pio_program::jmp(1, 8) & 0x1f == 8
        && pio_program::shift_in(3, 1) >> 13 == 2 && (pio_program::shift_in(3, 1) >> 5) & 7 == 3
        && pio_program::mov_not(1, 1) >> 13 == 5
        && pio_program::jmp(1, 5) >> 13 == 0 && (pio_program::jmp(1, 5) >> 5) & 7 == 1
        && pio_program::jmp(1, 5) & 0x1f == 5
        && pio_program::shift_in(7, 1) >> 13 == 2 && (pio_program::shift_in(7, 1) >> 5) & 7 == 7
        && pio_program::jmp(4, 1) >> 13 == 0 && (pio_program::jmp(4, 1) >> 5) & 7 == 4
        && pio_program::jmp(4, 1) & 0x1f == 1) by (bit_vector);
}

/// The decoder has read `bits` off the line: it has shifted in exactly those, `x`
/// tells the line state, and `y` how many one bits may follow before a stuff bit.
spec fn has_read(d: Decoder, bits: Seq<bool>) -> bool {
    &&& d.pc == 1
    &&& d.bits == bits
    &&& d.y == 6 - line_code::ones_run(bits)
    &&& d.x == (if line_code::line_is_j(line_code::stuff(bits)) {
        0u32
    } else {
        0xffff_ffffu32
    })
}

proof fn lemma_decoder_reads(bits: Seq<bool>)
    ensures
        has_read(primed_decoder().decode(line_code::nrzi(line_code::stuff(bits))), bits),
    decreases bits.len(),
{
    assert(!0u32 == 0xffff_ffffu32 && !0xffff_ffffu32 == 0u32) by (bit_vector);
    if bits.len() == 0 {
        lemma_decoder_words();
        reveal_with_fuel(Decoder::to_next_wait, 3);
        assert(bits =~= Seq::empty());
    } else {
        let less = bits.drop_last();
        let b = bits.last();
        lemma_decoder_reads(less);
        line_code::lemma_stuff_len(less);
        let s = line_code::stuff(less);
        let n = line_code::nrzi(s);
        let d = primed_decoder().decode(n);
        line_code::lemma_nrzi_push(s, b);
        let n1 = line_code::nrzi(s.push(b));
        assert(n1.drop_last() =~= n);
        let d1 = primed_decoder().decode(n1);
        lemma_decoder_trigger(d, n1.last() == line_code::SYM_K);
        assert(less.push(b) =~= bits);
        if b && line_code::ones_run(less) == 5 {
            line_code::lemma_nrzi_push(s.push(true), false);
            let n2 = line_code::nrzi(s.push(true).push(false));
            assert(n2.drop_last() =~= n1);
            lemma_decoder_trigger(d1, n2.last() == line_code::SYM_K);
        }
    }
}

/// Triggered once for each line symbol of a packet, the decoder shifts in exactly
/// the packet's bits: it reverses NRZI and drops the stuffed bits.
pub proof fn law_decoder_reads_packet(pkt: Seq<u8>)
    ensures
        primed_decoder().decode(line_code::line_symbols(pkt)).bits == crate::bits::bits_of(pkt),
{
    lemma_decoder_reads(crate::bits::bits_of(pkt));
}

/// A trigger behind the packet adds at most one bit.
pub proof fn lemma_trigger_behind_packet(pkt: Seq<u8>, pin: bool)
    ensures
        ({
            let bits = crate::bits::bits_of(pkt);
            let more = primed_decoder().decode(line_code::line_symbols(pkt)).triggered(pin).bits;
            more == bits || more == bits.push(true) || more == bits.push(false)
        }),
{
    lemma_decoder_reads(crate::bits::bits_of(pkt));
    lemma_decoder_trigger(primed_decoder().decode(line_code::line_symbols(pkt)), pin);
}

} // verus!
