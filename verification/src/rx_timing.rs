//! What the receive programs make of a line, cycle by cycle.
//!
//! The edge detector runs at 8x the bit rate. This module models its execution on a
//! line whose symbols last eight cycles each, and joins it with the decoder.
use crate::bits;
use crate::line_code;
use crate::pio_program;
use crate::rx_driver;
use crate::rx_pio;
use crate::rx_pio::{Decoder, DECODER_TRIGGER, IRQ_RX_EOP, IRQ_RX_START};
use crate::types::Speed;
use vstd::prelude::*;

verus! {

/// Detector cycles per line symbol.
pub const CYCLES_PER_SYMBOL: u8 = 8;

/// What the detector's pins read while the line shows a symbol. Both inputs are
/// inverted: `in` reads the line that is high in state J, `jmp` the other one.
pub struct Pins {
    pub jmp: bool,
    pub input: bool,
}

/// The pins under a line symbol.
pub open spec fn pins_of(sym: u8) -> Pins {
    Pins {
        jmp: sym == line_code::SYM_J || sym == line_code::SYM_SE0,
        input: sym == line_code::SYM_K || sym == line_code::SYM_SE0,
    }
}

/// Whether D+ is high when the line shows a symbol: in state J at full speed, in state
/// K at low speed.
pub open spec fn dp_high(sym: u8, speed: Speed) -> bool {
    if speed is Low {
        sym == line_code::SYM_K
    } else {
        sym == line_code::SYM_J
    }
}

/// Whether D- is high when the line shows a symbol.
pub open spec fn dm_high(sym: u8, speed: Speed) -> bool {
    if speed is Low {
        sym == line_code::SYM_J
    } else {
        sym == line_code::SYM_K
    }
}

/// What a GPIO input reads of one of the two lines: the inverted level.
pub open spec fn reads(pin: u8, dp: u8, sym: u8, speed: Speed) -> bool {
    if pin == dp {
        !dp_high(sym, speed)
    } else {
        !dm_high(sym, speed)
    }
}

/// At either speed the receive state machines are configured with the pins that read
/// the line as their programs expect it.
pub proof fn law_receiver_senses_line_state(dp: u8, dm: u8, sym: u8, speed: Speed)
    requires
        dp != dm,
        sym == line_code::SYM_J || sym == line_code::SYM_K || sym == line_code::SYM_SE0,
    ensures
        ({
            let detector = rx_driver::detector_setup(dp, dm, speed);
            let decoder = rx_driver::decoder_setup(dp, dm, speed);
            &&& reads(detector.in_base, dp, sym, speed) == pins_of(sym).input
            &&& reads(detector.jmp_pin, dp, sym, speed) == pins_of(sym).jmp
            &&& reads(decoder.jmp_pin, dp, sym, speed) == pins_of(sym).input
        }),
{
}

/// What the edge detector holds, and the IRQ flags that it has raised with the cycle
/// of each.
pub struct Detector {
    pub pc: int,
    /// Delay cycles that are left of the last instruction.
    pub rest: int,
    pub x: u32,
    pub isr: u32,
    /// Stopped in an `irq wait` until software clears the flag.
    pub stopped: bool,
    /// Cycles run so far.
    pub time: int,
    pub raised: Seq<(int, int)>,
}

impl Detector {
    /// The detector after the instruction `w` at its program counter.
    ///
    /// Covers the instructions that the detector is made of.
    pub open spec fn execute(self, w: u16, pins: Pins) -> Detector {
        let next: int = if self.pc == 9 {
            3
        } else {
            self.pc + 1
        };
        let target = (w & 0x1f) as int;
        let operand = (w >> 5) & 7;
        let d = Detector { pc: next, rest: ((w >> 8) & 0x1f) as int, time: self.time + 1, ..self };
        if w >> 13 == 0 {
            let taken = if operand == pio_program::JMP_PIN {
                pins.jmp
            } else if operand == pio_program::JMP_X_DEC {
                self.x != 0
            } else {
                true
            };
            let x = if operand == pio_program::JMP_X_DEC {
                self.x.wrapping_sub(1)
            } else {
                self.x
            };
            Detector {
                pc: if taken {
                    target
                } else {
                    next
                },
                x,
                ..d
            }
        } else if w >> 13 == 2 {
            Detector { isr: self.isr << 1 | (if pins.input { 1u32 } else { 0u32 }), ..d }
        } else if w >> 13 == 5 {
            let value = if w & 7 == pio_program::NULL {
                0
            } else {
                self.isr
            };
            if operand == pio_program::ISR {
                Detector { isr: value, ..d }
            } else {
                Detector { x: value, ..d }
            }
        } else {
            Detector { stopped: w & 0x20 != 0, raised: self.raised.push(((w & 7) as int, self.time)), ..d }
        }
    }

    /// The detector after one cycle.
    pub open spec fn cycle(self, pins: Pins) -> Detector {
        if self.stopped {
            Detector { time: self.time + 1, ..self }
        } else if self.rest > 0 {
            Detector { rest: self.rest - 1, time: self.time + 1, ..self }
        } else {
            self.execute(rx_pio::edge_detector_code()[self.pc], pins)
        }
    }

    /// The detector after `n` cycles under the same pins.
    pub open spec fn cycles(self, pins: Pins, n: nat) -> Detector
        decreases n,
    {
        if n == 0 {
            self
        } else {
            self.cycle(pins).cycles(pins, (n - 1) as nat)
        }
    }

    /// The detector after a line of symbols.
    pub open spec fn watch(self, syms: Seq<u8>) -> Detector
        decreases syms.len(),
    {
        if syms.len() == 0 {
            self
        } else {
            self.watch(syms.drop_last()).cycles(pins_of(syms.last()), CYCLES_PER_SYMBOL as nat)
        }
    }
}

/// The armed detector while the line is idle: it waits for a packet to start.
pub open spec fn waiting_detector() -> Detector {
    Detector { pc: 1, rest: 0, x: 0, isr: 0, stopped: false, time: 0, raised: Seq::empty() }
}

/// The triggers for `n` symbols: one in each, three cycles in.
pub open spec fn trigger_times(n: nat) -> Seq<(int, int)> {
    Seq::new(n, |k: int| (DECODER_TRIGGER as int, CYCLES_PER_SYMBOL * k + 3))
}

proof fn lemma_detector_words()
    ensures
        ({
            let c = rx_pio::edge_detector_code();
            &&& c[0] >> 13 == 6 && (c[0] >> 8) & 0x1f == 0 && c[0] & 7 == 2 && c[0] & 0x20 != 0
            &&& c[1] >> 13 == 0 && (c[1] >> 8) & 0x1f == 0 && (c[1] >> 5) & 7 == 6 && c[1] & 0x1f == 1
            &&& c[2] >> 13 == 6 && (c[2] >> 8) & 0x1f == 1 && c[2] & 7 == 3 && c[2] & 0x20 == 0
            &&& c[3] >> 13 == 6 && (c[3] >> 8) & 0x1f == 1 && c[3] & 7 == 4 && c[3] & 0x20 == 0
            &&& c[4] >> 13 == 0 && (c[4] >> 8) & 0x1f == 0 && (c[4] >> 5) & 7 == 6 && c[4] & 0x1f == 12
            &&& c[4] == c[5] == c[6] == c[7] == c[8] == c[9]
            &&& c[10] >> 13 == 5 && (c[10] >> 8) & 0x1f == 1 && (c[10] >> 5) & 7 == 1 && c[10] & 7 == 6
            &&& c[11] >> 13 == 0 && (c[11] >> 8) & 0x1f == 0 && (c[11] >> 5) & 7 == 2 && c[11] & 0x1f == 0
            &&& c[12] >> 13 == 5 && (c[12] >> 8) & 0x1f == 1 && (c[12] >> 5) & 7 == 6 && c[12] & 7 == 3
            &&& c[13] >> 13 == 6 && (c[13] >> 8) & 0x1f == 0 && c[13] & 7 == 4 && c[13] & 0x20 == 0
            &&& c[14] >> 13 == 2 && (c[14] >> 8) & 0x1f == 0
            &&& c[15] >> 13 == 0 && (c[15] >> 8) & 0x1f == 0 && (c[15] >> 5) & 7 == 6 && c[15] & 0x1f == 10
            &&& c[16] >> 13 == 0 && (c[16] >> 8) & 0x1f == 0 && (c[16] >> 5) & 7 == 0 && c[16] & 0x1f == 6
        }),
{
    assert({
        &&& 0xC022u16 >> 13 == 6 && (0xC022u16 >> 8) & 0x1f == 0 && 0xC022u16 & 7 == 2 && 0xC022u16 & 0x20 != 0
        &&& 0x00C1u16 >> 13 == 0 && (0x00C1u16 >> 8) & 0x1f == 0 && (0x00C1u16 >> 5) & 7 == 6 && 0x00C1u16 & 0x1f == 1
        &&& 0xC103u16 >> 13 == 6 && (0xC103u16 >> 8) & 0x1f == 1 && 0xC103u16 & 7 == 3 && 0xC103u16 & 0x20 == 0
        &&& 0xC104u16 >> 13 == 6 && (0xC104u16 >> 8) & 0x1f == 1 && 0xC104u16 & 7 == 4 && 0xC104u16 & 0x20 == 0
        &&& 0x00CCu16 >> 13 == 0 && (0x00CCu16 >> 8) & 0x1f == 0 && (0x00CCu16 >> 5) & 7 == 6 && 0x00CCu16 & 0x1f == 12
        &&& 0xA126u16 >> 13 == 5 && (0xA126u16 >> 8) & 0x1f == 1 && (0xA126u16 >> 5) & 7 == 1 && 0xA126u16 & 7 == 6
        &&& 0x0040u16 >> 13 == 0 && (0x0040u16 >> 8) & 0x1f == 0 && (0x0040u16 >> 5) & 7 == 2 && 0x0040u16 & 0x1f == 0
        &&& 0xA1C3u16 >> 13 == 5 && (0xA1C3u16 >> 8) & 0x1f == 1 && (0xA1C3u16 >> 5) & 7 == 6 && 0xA1C3u16 & 7 == 3
        &&& 0xC004u16 >> 13 == 6 && (0xC004u16 >> 8) & 0x1f == 0 && 0xC004u16 & 7 == 4 && 0xC004u16 & 0x20 == 0
        &&& 0x4001u16 >> 13 == 2 && (0x4001u16 >> 8) & 0x1f == 0
        &&& 0x00CAu16 >> 13 == 0 && (0x00CAu16 >> 8) & 0x1f == 0 && (0x00CAu16 >> 5) & 7 == 6 && 0x00CAu16 & 0x1f == 10
        &&& 0x0006u16 >> 13 == 0 && (0x0006u16 >> 8) & 0x1f == 0 && (0x0006u16 >> 5) & 7 == 0 && 0x0006u16 & 0x1f == 6
    }) by (bit_vector);
    rx_pio::lemma_detector_text();
}

/// Where the detector is when a symbol begins behind state K: it polls for the line
/// to change.
spec fn in_low_loop(d: Detector) -> bool {
    !d.stopped && d.rest == 0 && d.pc == 7
}

/// Where it is behind state J: it knows that the line was not SE0.
spec fn in_high_loop(d: Detector) -> bool {
    !d.stopped && d.rest == 0 && d.pc == 11 && d.x == 0
}

proof fn lemma_symbol(d: Detector, sym: u8)
    requires
        in_low_loop(d) || in_high_loop(d),
        sym == line_code::SYM_J || sym == line_code::SYM_K,
    ensures
        ({
            let after = d.cycles(pins_of(sym), 8);
            &&& after.time == d.time + 8
            &&& after.raised == d.raised.push((4, d.time + 3))
            &&& sym == line_code::SYM_K ==> in_low_loop(after)
            &&& sym == line_code::SYM_J ==> in_high_loop(after)
        }),
{
    lemma_detector_words();
    assert(0u32 << 1 | 0 == 0) by (bit_vector);
    reveal_with_fuel(Detector::cycles, 9);
}

proof fn lemma_end(d: Detector)
    requires
        in_low_loop(d) || in_high_loop(d),
    ensures
        ({
            let after = d.cycles(pins_of(line_code::SYM_SE0), 8).cycles(pins_of(line_code::SYM_SE0), 8);
            &&& after.time == d.time + 16
            &&& after.raised == d.raised.push((4, d.time + 3)).push((2, d.time + 9))
            &&& after.stopped
        }),
{
    lemma_detector_words();
    assert(0u32 << 1 | 1 == 1) by (bit_vector);
    reveal_with_fuel(Detector::cycles, 9);
}

proof fn lemma_start()
    ensures
        ({
            let after = waiting_detector().cycles(pins_of(line_code::SYM_K), 8);
            &&& after.time == 8
            &&& after.raised =~= seq![(3, 1), (4, 3)]
            &&& in_low_loop(after)
        }),
{
    lemma_detector_words();
    reveal_with_fuel(Detector::cycles, 9);
}

proof fn lemma_watch(syms: Seq<u8>)
    requires
        syms.len() > 0,
        syms[0] == line_code::SYM_K,
        forall|i: int|
            0 <= i < syms.len() ==> syms[i] == line_code::SYM_J || syms[i] == line_code::SYM_K,
    ensures
        ({
            let d = waiting_detector().watch(syms);
            &&& in_low_loop(d) || in_high_loop(d)
            &&& d.time == 8 * syms.len()
            &&& d.raised == seq![(3int, 1int)] + trigger_times(syms.len())
        }),
    decreases syms.len(),
{
    let less = syms.drop_last();
    if less.len() == 0 {
        lemma_start();
        assert(waiting_detector().watch(less) == waiting_detector());
        assert(seq![(3int, 1int), (4int, 3int)] =~= seq![(3int, 1int)] + trigger_times(1));
    } else {
        lemma_watch(less);
        let d = waiting_detector().watch(less);
        lemma_symbol(d, syms.last());
        assert((seq![(3int, 1int)] + trigger_times(less.len())).push((4, d.time + 3)) =~= seq![(3int, 1int)]
            + trigger_times(syms.len()));
    }
}

/// A line of symbols, followed by the two symbol times of SE0 that end a packet.
pub open spec fn with_eop(syms: Seq<u8>) -> Seq<u8> {
    syms.push(line_code::SYM_SE0).push(line_code::SYM_SE0)
}

/// On a line whose symbols last eight cycles the detector reports the start of a
/// packet right when the line leaves idle, triggers the decoder exactly once in each
/// symbol, SE0 included, and always three cycles into it, and reports the end within
/// the second symbol time of SE0.
pub proof fn law_detector_triggers_once_per_symbol(syms: Seq<u8>)
    requires
        syms.len() > 0,
        syms[0] == line_code::SYM_K,
        forall|i: int|
            0 <= i < syms.len() ==> syms[i] == line_code::SYM_J || syms[i] == line_code::SYM_K,
    ensures
        waiting_detector().watch(with_eop(syms)).raised == seq![(IRQ_RX_START as int, 1int)]
            + trigger_times(syms.len() + 1) + seq![
            (IRQ_RX_EOP as int, CYCLES_PER_SYMBOL * syms.len() + 9),
        ],
{
    lemma_watch(syms);
    let d = waiting_detector().watch(syms);
    lemma_end(d);
    let one = syms.push(line_code::SYM_SE0);
    assert(one.drop_last() =~= syms);
    assert(with_eop(syms).drop_last() =~= one);
    assert(waiting_detector().watch(one) == d.cycles(pins_of(line_code::SYM_SE0), 8));
    assert(d.raised.push((4, d.time + 3)).push((2, d.time + 9)) =~= seq![(3int, 1int)] + trigger_times(
        syms.len() + 1,
    ) + seq![(2int, 8 * (syms.len() as int) + 9)]);
}

/// The decoder behind the flags that the detector has raised: each trigger has it
/// read the line's symbol at that cycle.
pub open spec fn decoder_after(raised: Seq<(int, int)>, line: Seq<u8>) -> Decoder
    decreases raised.len(),
{
    if raised.len() == 0 {
        rx_pio::primed_decoder()
    } else {
        let d = decoder_after(raised.drop_last(), line);
        let (flag, time) = raised.last();
        if flag == DECODER_TRIGGER {
            d.triggered(pins_of(line[time / CYCLES_PER_SYMBOL as int]).input)
        } else {
            d
        }
    }
}

proof fn lemma_decoder_after_triggers(syms: Seq<u8>, line: Seq<u8>, k: nat)
    requires
        k <= syms.len() <= line.len(),
        forall|i: int| 0 <= i < syms.len() ==> line[i] == syms[i],
        forall|i: int|
            0 <= i < syms.len() ==> syms[i] == line_code::SYM_J || syms[i] == line_code::SYM_K,
    ensures
        decoder_after(seq![(3int, 1int)] + trigger_times(k), line) == rx_pio::primed_decoder().decode(
            syms.take(k as int),
        ),
    decreases k,
{
    let raised = seq![(3int, 1int)] + trigger_times(k);
    if k == 0 {
        assert(raised.drop_last() =~= Seq::empty());
        assert(raised.last() == (3int, 1int));
        assert(decoder_after(raised.drop_last(), line) == rx_pio::primed_decoder());
        assert(syms.take(0) =~= Seq::empty());
    } else {
        lemma_decoder_after_triggers(syms, line, (k - 1) as nat);
        assert(raised.drop_last() =~= seq![(3int, 1int)] + trigger_times((k - 1) as nat));
        assert(raised.last() == (4int, 8 * (k - 1) + 3));
        assert((8 * (k - 1) + 3) / 8 == k - 1);
        assert(pins_of(line[k - 1]).input == (syms[k - 1] == line_code::SYM_K));
        assert(syms.take(k as int).drop_last() =~= syms.take(k - 1));
        assert(syms.take(k as int).last() == syms[k - 1]);
    }
}

/// A bit behind whole bytes does not change them.
proof fn lemma_whole_bytes(raw: Seq<bool>, got: Seq<bool>)
    requires
        raw.len() % 8 == 0,
        got == raw || got == raw.push(true) || got == raw.push(false),
    ensures
        bits::bytes_of(got) == bits::bytes_of(raw),
{
    assert(got.len() / 8 == raw.len() / 8);
    assert(bits::bytes_of(got) =~= bits::bytes_of(raw));
}

proof fn lemma_decoder_after_eop(syms: Seq<u8>)
    requires
        syms.len() > 0,
        syms[0] == line_code::SYM_K,
        forall|i: int|
            0 <= i < syms.len() ==> syms[i] == line_code::SYM_J || syms[i] == line_code::SYM_K,
    ensures
        decoder_after(waiting_detector().watch(with_eop(syms)).raised, with_eop(syms))
            == rx_pio::primed_decoder().decode(syms).triggered(true),
{
    let line = with_eop(syms);
    let n = syms.len();
    law_detector_triggers_once_per_symbol(syms);
    let raised = waiting_detector().watch(line).raised;
    lemma_decoder_after_triggers(syms, line, n);
    assert(syms.take(n as int) =~= syms);
    let triggers = raised.drop_last();
    assert(triggers =~= seq![(3int, 1int)] + trigger_times(n + 1));
    assert(triggers.drop_last() =~= seq![(3int, 1int)] + trigger_times(n));
    assert(triggers.last() == (4int, 8 * (n as int) + 3));
    assert((8 * (n as int) + 3) / 8 == n);
    assert(pins_of(line[n as int]).input);
    assert(decoder_after(triggers, line) == rx_pio::primed_decoder().decode(syms).triggered(true));
}

/// The detector and the decoder together turn the line of a packet into the packet's
/// bytes, each pushed when its eight bits are in. The line leaves idle with the first
/// symbol, as it does for every packet that begins with SYNC.
pub proof fn law_receiver_reads_packet(pkt: Seq<u8>)
    requires
        pkt.len() > 0,
        !bits::byte_bit(pkt[0], 0),
    ensures
        ({
            let line = with_eop(line_code::line_symbols(pkt));
            let raised = waiting_detector().watch(line).raised;
            bits::bytes_of(decoder_after(raised, line).bits) == pkt
        }),
{
    let syms = line_code::line_symbols(pkt);
    line_code::lemma_symbols_of_bit(pkt, 0);
    line_code::lemma_packet_symbols_len(pkt);
    assert(line_code::stuff(bits::bits_of(pkt).take(0)).len() == 0);
    assert(line_code::packet_symbols(pkt)[0] == line_code::SYM_K);
    line_code::lemma_stuff_len(bits::bits_of(pkt));
    assert(syms[0] == line_code::SYM_K);
    lemma_decoder_after_eop(syms);
    rx_pio::lemma_trigger_behind_packet(pkt, true);
    lemma_whole_bytes(bits::bits_of(pkt), rx_pio::primed_decoder().decode(syms).triggered(true).bits);
    bits::lemma_bytes_of_bits_of(pkt);
}

} // verus!
