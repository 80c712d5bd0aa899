//! What the player makes of a packet's symbols, cycle by cycle.
use crate::line_code;
use crate::tx_pio;
use vstd::prelude::*;

verus! {

/// Player cycles per line symbol.
pub const CYCLES_PER_SYMBOL: u8 = 4;

/// What the player does to the two lines in one cycle: the value of the pins, the
/// lower in bit 0, and whether they are outputs.
pub struct Drive {
    pub value: u16,
    pub driven: bool,
}

/// What the player holds: its program counter, the delay cycles that are left, how
/// many symbols it has taken, its pins, and what it did to the lines in every cycle.
pub struct Player {
    pub pc: int,
    pub rest: int,
    pub taken: int,
    pub pins: Drive,
    /// Whether the flag that marks the end of the packet has been raised.
    pub eop: bool,
    pub lines: Seq<Drive>,
}

impl Player {
    /// The player after the instruction `w` at its program counter.
    ///
    /// Covers the instructions that the player is made of. Without a symbol to take
    /// it stalls.
    pub open spec fn execute(self, w: u16, syms: Seq<u8>) -> Player {
        let next: int = if self.pc == 4 {
            1
        } else {
            self.pc + 1
        };
        let value = (w >> 11) & 3;
        let rest = ((w >> 8) & 7) as int;
        if w >> 13 == 3 {
            let pins = Drive { value, driven: self.pins.driven };
            if self.taken < syms.len() {
                Player {
                    pc: syms[self.taken] as int,
                    rest,
                    taken: self.taken + 1,
                    pins,
                    lines: self.lines.push(pins),
                    ..self
                }
            } else {
                Player { pins, lines: self.lines.push(pins), ..self }
            }
        } else if w >> 13 == 7 {
            let pins = Drive { value, driven: w & 0x1f != 0 };
            Player { pc: next, rest, pins, lines: self.lines.push(pins), ..self }
        } else {
            let pins = Drive { value, driven: self.pins.driven };
            Player { pc: next, rest, pins, eop: true, lines: self.lines.push(pins), ..self }
        }
    }

    /// The player after one cycle.
    pub open spec fn cycle(self, code: Seq<u16>, syms: Seq<u8>) -> Player {
        if self.rest > 0 {
            Player { rest: self.rest - 1, lines: self.lines.push(self.pins), ..self }
        } else {
            self.execute(code[self.pc], syms)
        }
    }

    /// The player after `n` cycles.
    pub open spec fn cycles(self, code: Seq<u16>, syms: Seq<u8>, n: nat) -> Player
        decreases n,
    {
        if n == 0 {
            self
        } else {
            self.cycle(code, syms).cycles(code, syms, (n - 1) as nat)
        }
    }
}

/// The player at its start slot with the lines at `j`, where the start instruction
/// takes it.
pub open spec fn started_player(j: u16) -> Player {
    Player {
        pc: 4,
        rest: 0,
        taken: 0,
        pins: Drive { value: j, driven: false },
        eop: false,
        lines: Seq::empty(),
    }
}

/// `n` cycles of the same.
pub open spec fn held(value: u16, driven: bool, n: nat) -> Seq<Drive> {
    Seq::new(n, |i: int| Drive { value, driven })
}

/// The pins' value for a line symbol.
pub open spec fn symbol_value(j: u16, k: u16, sym: u8) -> u16 {
    if sym == line_code::SYM_J {
        j
    } else {
        k
    }
}

/// Line symbols at four cycles each.
pub open spec fn symbol_cycles(j: u16, k: u16, line: Seq<u8>) -> Seq<Drive> {
    Seq::new(
        (4 * line.len()) as nat,
        |i: int| Drive { value: symbol_value(j, k, line[i / 4]), driven: true },
    )
}

/// The lines while a packet is sent: idle J for a symbol time and the start slot, the
/// line symbols, SE0 for exactly two symbol times, J for one, then released.
pub open spec fn waveform(j: u16, k: u16, line: Seq<u8>) -> Seq<Drive> {
    held(j, true, 5) + symbol_cycles(j, k, line) + held(0, true, 8) + held(j, true, 4) + held(j, false, 4)
}

/// Symbols of a packet as the player takes them: line symbols, SE0, COMP, and then
/// nothing but idle.
pub open spec fn is_packet_stream(line: Seq<u8>, syms: Seq<u8>) -> bool {
    &&& line.len() + 2 <= syms.len()
    &&& forall|i: int|
        0 <= i < line.len() ==> #[trigger] syms[i] == line[i] && (line[i] == line_code::SYM_J || line[i]
            == line_code::SYM_K)
    &&& syms[line.len() as int] == line_code::SYM_SE0
    &&& syms[line.len() as int + 1] == line_code::SYM_COMP
    &&& forall|i: int| line.len() + 2 <= i < syms.len() ==> #[trigger] syms[i] == line_code::SYM_J
}

spec fn is_polarity(j: u16, k: u16) -> bool {
    j == 1 && k == 2 || j == 2 && k == 1
}

proof fn lemma_player_words(j: u16, k: u16)
    requires
        is_polarity(j, k),
    ensures
        ({
            let c = tx_pio::player_code(j, k);
            &&& c[0] >> 13 == 6 && (c[0] >> 8) & 7 == 7 && (c[0] >> 11) & 3 == 0
            &&& c[1] >> 13 == 3 && (c[1] >> 8) & 7 == 3 && (c[1] >> 11) & 3 == j
            &&& c[2] >> 13 == 7 && (c[2] >> 8) & 7 == 3 && (c[2] >> 11) & 3 == j && c[2] & 0x1f == 0
            &&& c[3] >> 13 == 3 && (c[3] >> 8) & 7 == 3 && (c[3] >> 11) & 3 == k
            &&& c[4] >> 13 == 7 && (c[4] >> 8) & 7 == 0 && (c[4] >> 11) & 3 == j && c[4] & 0x1f == 3
        }),
{
    let c0 = tx_pio::player_code(j, k)[0];
    let c1 = tx_pio::player_code(j, k)[1];
    let c2 = tx_pio::player_code(j, k)[2];
    let c3 = tx_pio::player_code(j, k)[3];
    let c4 = tx_pio::player_code(j, k)[4];
    assert({
        &&& c0 >> 13 == 6 && (c0 >> 8) & 7 == 7 && (c0 >> 11) & 3 == 0
        &&& c1 >> 13 == 3 && (c1 >> 8) & 7 == 3 && (c1 >> 11) & 3 == j
        &&& c2 >> 13 == 7 && (c2 >> 8) & 7 == 3 && (c2 >> 11) & 3 == j && c2 & 0x1f == 0
        &&& c3 >> 13 == 3 && (c3 >> 8) & 7 == 3 && (c3 >> 11) & 3 == k
        &&& c4 >> 13 == 7 && (c4 >> 8) & 7 == 0 && (c4 >> 11) & 3 == j && c4 & 0x1f == 3
    }) by (bit_vector)
        requires
            j == 1 && k == 2 || j == 2 && k == 1,
            c0 == (0xC000u16 | 0) | 0u16 << 11 | 7u16 << 8,
            c1 == (0x6000u16 | 5u16 << 5 | 2) | j << 11 | 3u16 << 8,
            c2 == (0xE000u16 | 4u16 << 5 | 0) | j << 11 | 3u16 << 8,
            c3 == (0x6000u16 | 5u16 << 5 | 2) | k << 11 | 3u16 << 8,
            c4 == (0xE000u16 | 4u16 << 5 | 3) | j << 11,
    ;
}

proof fn lemma_cycles_add(p: Player, code: Seq<u16>, syms: Seq<u8>, a: nat, b: nat)
    ensures
        p.cycles(code, syms, a + b) == p.cycles(code, syms, a).cycles(code, syms, b),
    decreases a,
{
    if a > 0 {
        lemma_cycles_add(p.cycle(code, syms), code, syms, (a - 1) as nat, b);
    }
}

/// A symbol slot drives its level for four cycles and takes the next symbol.
proof fn lemma_slot(p: Player, j: u16, k: u16, syms: Seq<u8>)
    requires
        is_polarity(j, k),
        p.pc == 1 || p.pc == 3,
        p.rest == 0,
        0 <= p.taken < syms.len(),
    ensures
        ({
            let value = if p.pc == 1 {
                j
            } else {
                k
            };
            p.cycles(tx_pio::player_code(j, k), syms, 4) == (Player {
                pc: syms[p.taken] as int,
                taken: p.taken + 1,
                pins: Drive { value, driven: p.pins.driven },
                lines: p.lines + held(value, p.pins.driven, 4),
                ..p
            })
        }),
{
    lemma_player_words(j, k);
    reveal_with_fuel(Player::cycles, 5);
    let value = if p.pc == 1 {
        j
    } else {
        k
    };
    let d = Drive { value, driven: p.pins.driven };
    assert(p.lines.push(d).push(d).push(d).push(d) =~= p.lines + held(value, p.pins.driven, 4));
}

/// The start slot takes the lines over for one cycle.
proof fn lemma_start_slot(j: u16, k: u16, syms: Seq<u8>)
    requires
        is_polarity(j, k),
    ensures
        started_player(j).cycles(tx_pio::player_code(j, k), syms, 1) == (Player {
            pc: 1,
            pins: Drive { value: j, driven: true },
            lines: held(j, true, 1),
            ..started_player(j)
        }),
{
    lemma_player_words(j, k);
    reveal_with_fuel(Player::cycles, 2);
    let d = Drive { value: j, driven: true };
    assert(Seq::empty().push(d) =~= held(j, true, 1));
}

/// The EOP slot drives SE0 for eight cycles and raises the flag.
proof fn lemma_eop_slot(p: Player, j: u16, k: u16, syms: Seq<u8>)
    requires
        is_polarity(j, k),
        p.pc == 0,
        p.rest == 0,
    ensures
        p.cycles(tx_pio::player_code(j, k), syms, 8) == (Player {
            pc: 1,
            pins: Drive { value: 0, driven: p.pins.driven },
            eop: true,
            lines: p.lines + held(0, p.pins.driven, 8),
            ..p
        }),
{
    lemma_player_words(j, k);
    reveal_with_fuel(Player::cycles, 9);
    let d = Drive { value: 0, driven: p.pins.driven };
    assert(p.lines.push(d).push(d).push(d).push(d).push(d).push(d).push(d).push(d) =~= p.lines + held(
        0,
        p.pins.driven,
        8,
    ));
}

/// The COMP slot releases the lines.
proof fn lemma_comp_slot(p: Player, j: u16, k: u16, syms: Seq<u8>)
    requires
        is_polarity(j, k),
        p.pc == 2,
        p.rest == 0,
    ensures
        p.cycles(tx_pio::player_code(j, k), syms, 4) == (Player {
            pc: 3,
            pins: Drive { value: j, driven: false },
            lines: p.lines + held(j, false, 4),
            ..p
        }),
{
    lemma_player_words(j, k);
    reveal_with_fuel(Player::cycles, 5);
    let d = Drive { value: j, driven: false };
    assert(p.lines.push(d).push(d).push(d).push(d) =~= p.lines + held(j, false, 4));
}

/// The player before symbol `n` of the line, or the SE0 behind it.
proof fn lemma_plays_line(j: u16, k: u16, line: Seq<u8>, syms: Seq<u8>, n: nat)
    requires
        is_polarity(j, k),
        is_packet_stream(line, syms),
        n <= line.len(),
    ensures
        ({
            let p = started_player(j).cycles(tx_pio::player_code(j, k), syms, (5 + 4 * n) as nat);
            &&& p.pc == syms[n as int]
            &&& p.rest == 0
            &&& p.taken == n + 1
            &&& p.pins.driven
            &&& !p.eop
            &&& p.lines == held(j, true, 5) + symbol_cycles(j, k, line.take(n as int))
        }),
    decreases n,
{
    let code = tx_pio::player_code(j, k);
    if n == 0 {
        lemma_start_slot(j, k, syms);
        let p = started_player(j).cycles(code, syms, 1);
        lemma_slot(p, j, k, syms);
        lemma_cycles_add(started_player(j), code, syms, 1, 4);
        assert(held(j, true, 1) + held(j, true, 4) =~= held(j, true, 5) + symbol_cycles(j, k, line.take(0)));
    } else {
        let m = (n - 1) as nat;
        lemma_plays_line(j, k, line, syms, m);
        let p = started_player(j).cycles(code, syms, (5 + 4 * m) as nat);
        assert(syms[m as int] == line[m as int]);
        lemma_slot(p, j, k, syms);
        lemma_cycles_add(started_player(j), code, syms, (5 + 4 * m) as nat, 4);
        let value = symbol_value(j, k, line[m as int]);
        assert(p.lines + held(value, true, 4) =~= held(j, true, 5) + symbol_cycles(j, k, line.take(n as int)));
    }
}

/// The player behind the COMP of a packet.
proof fn lemma_plays_packet(j: u16, k: u16, line: Seq<u8>, syms: Seq<u8>)
    requires
        is_polarity(j, k),
        is_packet_stream(line, syms),
    ensures
        waveform(j, k, line).len() == 4 * line.len() + 21,
        ({
            let p = started_player(j).cycles(
                tx_pio::player_code(j, k),
                syms,
                waveform(j, k, line).len(),
            );
            &&& p.pc == 3
            &&& p.rest == 0
            &&& p.taken == line.len() + 2
            &&& !p.pins.driven
            &&& p.eop
            &&& p.lines == waveform(j, k, line)
        }),
{
    let code = tx_pio::player_code(j, k);
    let n = line.len();
    let s = started_player(j);
    lemma_plays_line(j, k, line, syms, n);
    assert(line.take(n as int) =~= line);
    let t0 = (5 + 4 * n) as nat;
    let p0 = s.cycles(code, syms, t0);
    lemma_eop_slot(p0, j, k, syms);
    lemma_cycles_add(s, code, syms, t0, 8);
    let p1 = s.cycles(code, syms, t0 + 8);
    lemma_slot(p1, j, k, syms);
    lemma_cycles_add(s, code, syms, t0 + 8, 4);
    let p2 = s.cycles(code, syms, t0 + 12);
    lemma_comp_slot(p2, j, k, syms);
    lemma_cycles_add(s, code, syms, t0 + 12, 4);
    let p3 = s.cycles(code, syms, t0 + 16);
    assert(p3.lines =~= waveform(j, k, line));
}

/// Sending a packet drives each line symbol for four cycles, one symbol time, SE0 for
/// eight, and idle J for four, and then releases the lines; the player raises its
/// flag with the SE0 and has taken all symbols up to COMP.
pub proof fn law_player_waveform(j: u16, k: u16, line: Seq<u8>, syms: Seq<u8>)
    requires
        j == 1 && k == 2 || j == 2 && k == 1,
        is_packet_stream(line, syms),
    ensures
        ({
            let n = waveform(j, k, line).len();
            let p = started_player(j).cycles(tx_pio::player_code(j, k), syms, n);
            &&& n == 4 * line.len() + 21
            &&& p.lines == waveform(j, k, line)
            &&& p.eop
            &&& !p.pins.driven
            &&& p.taken == line.len() + 2
        }),
{
    lemma_plays_packet(j, k, line, syms);
}

/// Behind COMP the lines stay released, however long the player runs.
proof fn lemma_stays_released(p: Player, j: u16, k: u16, syms: Seq<u8>, n: nat)
    requires
        is_polarity(j, k),
        p.pc == 1 || p.pc == 3,
        p.rest >= 0,
        p.taken >= 0,
        !p.pins.driven,
        forall|i: int| p.taken <= i < syms.len() ==> #[trigger] syms[i] == line_code::SYM_J,
    ensures
        !p.cycles(tx_pio::player_code(j, k), syms, n).pins.driven,
    decreases n,
{
    if n > 0 {
        lemma_player_words(j, k);
        lemma_stays_released(p.cycle(tx_pio::player_code(j, k), syms), j, k, syms, (n - 1) as nat);
    }
}

/// Once a packet is out the player never drives the lines again until it is started
/// anew.
pub proof fn law_player_releases_bus(j: u16, k: u16, line: Seq<u8>, syms: Seq<u8>, more: nat)
    requires
        j == 1 && k == 2 || j == 2 && k == 1,
        is_packet_stream(line, syms),
    ensures
        !started_player(j).cycles(
            tx_pio::player_code(j, k),
            syms,
            waveform(j, k, line).len() + more,
        ).pins.driven,
{
    let code = tx_pio::player_code(j, k);
    let n = waveform(j, k, line).len();
    lemma_plays_packet(j, k, line, syms);
    lemma_stays_released(started_player(j).cycles(code, syms, n), j, k, syms, more);
    lemma_cycles_add(started_player(j), code, syms, n, more);
}

proof fn lemma_packet_stream(line: Seq<u8>, syms: Seq<u8>, played: Seq<u8>)
    requires
        is_packet_stream(line, syms),
        syms.is_prefix_of(played),
        forall|i: int| syms.len() <= i < played.len() ==> #[trigger] played[i] == line_code::SYM_J,
    ensures
        is_packet_stream(line, played),
{
    assert forall|i: int| 0 <= i < syms.len() implies #[trigger] played[i] == syms[i] by {
        assert(syms == played.take(syms.len() as int));
    }
}

proof fn lemma_packet_symbols_stream(pkt: Seq<u8>)
    ensures
        is_packet_stream(line_code::line_symbols(pkt), line_code::packet_symbols(pkt)),
{
}

/// What the player takes from a packet's FIFO words is the packet's line symbols,
/// SE0, COMP, and idle.
pub proof fn law_packet_words_are_a_packet_stream(pkt: Seq<u8>)
    ensures
        is_packet_stream(
            line_code::line_symbols(pkt),
            line_code::played_symbols(line_code::packet_words(pkt)),
        ),
{
    line_code::law_player_takes_packet_symbols(pkt);
    lemma_packet_symbols_stream(pkt);
    lemma_packet_stream(
        line_code::line_symbols(pkt),
        line_code::packet_symbols(pkt),
        line_code::played_symbols(line_code::packet_words(pkt)),
    );
}

} // verus!
