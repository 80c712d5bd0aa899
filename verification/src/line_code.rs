//! What a packet looks like on the wire and in the transmit FIFO.
//!
//! A packet's bits go out least significant first. After six consecutive one bits
//! a zero bit is stuffed (USB 2.0 §7.1.9), and NRZI turns every zero bit into a
//! transition of the line (§7.1.8). The line states become 2-bit symbols for the
//! transmit player, followed by the end of packet and idle symbols, four symbols
//! to a byte and four bytes to a FIFO word, most significant first.
use crate::bits;
use vstd::prelude::*;

verus! {

/// Single-ended-zero symbol; the player drives both lines low.
///
/// The 2-bit TX symbols are `out pc` jump targets into the transmit player:
/// SE0 = 0, idle-J = 1, COMP = 2, K = 3.
pub const SYM_SE0: u8 = 0;

/// Logical idle-J symbol for the currently selected TX PIO program.
pub const SYM_J: u8 = 1;

/// Completion symbol; the player releases D+/D- to inputs after EOP.
pub const SYM_COMP: u8 = 2;

/// Logical K symbol for the currently selected TX PIO program.
pub const SYM_K: u8 = 3;

/// A byte of four idle-J symbols, which fills the last FIFO word.
pub const IDLE_BYTE: u8 = 0x55;

/// The number of one bits at the end of `bits` that count towards the next stuff
/// bit: those since the last zero bit or the last stuff bit.
pub open spec fn ones_run(bits: Seq<bool>) -> nat
    decreases bits.len(),
{
    if bits.len() == 0 || !bits.last() {
        0
    } else if ones_run(bits.drop_last()) == 5 {
        0
    } else {
        ones_run(bits.drop_last()) + 1
    }
}

/// `bits` with a zero bit after every six consecutive one bits.
pub open spec fn stuff(bits: Seq<bool>) -> Seq<bool>
    decreases bits.len(),
{
    if bits.len() == 0 {
        Seq::empty()
    } else if bits.last() && ones_run(bits.drop_last()) == 5 {
        stuff(bits.drop_last()).push(true).push(false)
    } else {
        stuff(bits.drop_last()).push(bits.last())
    }
}

/// Whether the line is in state J after `bits`, starting from idle J: a zero bit
/// toggles it, a one bit keeps it.
pub open spec fn line_is_j(bits: Seq<bool>) -> bool
    decreases bits.len(),
{
    if bits.len() == 0 {
        true
    } else {
        line_is_j(bits.drop_last()) == bits.last()
    }
}

/// The symbol of a line state.
pub open spec fn level_symbol(j: bool) -> u8 {
    if j {
        SYM_J
    } else {
        SYM_K
    }
}

/// The NRZI line symbols of `bits`: one for each bit, the line state after it.
pub open spec fn nrzi(bits: Seq<bool>) -> Seq<u8> {
    Seq::new(bits.len(), |i: int| level_symbol(line_is_j(bits.take(i + 1))))
}

/// The line symbols of a packet up to its end of packet.
pub open spec fn line_symbols(pkt: Seq<u8>) -> Seq<u8> {
    nrzi(stuff(bits::bits_of(pkt)))
}

/// The number of idle symbols that end an encoded packet of `n` line symbols: as many
/// as it takes to reach a byte boundary after EOP, so at most three.
pub open spec fn idle_count(n: nat) -> nat {
    ((4 - (n + 2) % 4) % 4) as nat
}

/// The symbols of an encoded packet: the line symbols, the low-/full-speed EOP
/// (USB 2.0 §7.1.7.2) as SE0 then COMP, and idle-J up to a byte boundary.
pub open spec fn packet_symbols(pkt: Seq<u8>) -> Seq<u8> {
    let line = line_symbols(pkt);
    line + seq![SYM_SE0, SYM_COMP] + Seq::new(idle_count(line.len()), |i: int| SYM_J)
}

/// Four symbols in a byte, the first in the most significant bits.
pub open spec fn pack4(s0: u8, s1: u8, s2: u8, s3: u8) -> u8 {
    (s0 << 6) | (s1 << 4) | (s2 << 2) | s3
}

/// Symbols packed four per byte.
pub open spec fn pack_symbols(syms: Seq<u8>) -> Seq<u8> {
    Seq::new(
        syms.len() / 4,
        |i: int| pack4(syms[4 * i], syms[4 * i + 1], syms[4 * i + 2], syms[4 * i + 3]),
    )
}

/// The encoded symbol bytes of a packet.
pub open spec fn encoded_bytes(pkt: Seq<u8>) -> Seq<u8> {
    pack_symbols(packet_symbols(pkt))
}

/// Byte `i` of an encoded packet, or idle symbols behind its end.
pub open spec fn byte_or_idle(bytes: Seq<u8>, i: int) -> u8 {
    if i < bytes.len() {
        bytes[i]
    } else {
        IDLE_BYTE
    }
}

/// Four bytes as a big-endian word.
pub open spec fn be_word(b0: u8, b1: u8, b2: u8, b3: u8) -> u32 {
    (b0 as u32) << 24 | (b1 as u32) << 16 | (b2 as u32) << 8 | (b3 as u32)
}

/// The number of words that `n` bytes take.
pub open spec fn word_count(n: nat) -> nat {
    (n + 3) / 4
}

/// Word `w` of the big-endian FIFO words that hold `bytes`.
pub open spec fn fifo_word(bytes: Seq<u8>, w: int) -> u32 {
    be_word(
        byte_or_idle(bytes, 4 * w),
        byte_or_idle(bytes, 4 * w + 1),
        byte_or_idle(bytes, 4 * w + 2),
        byte_or_idle(bytes, 4 * w + 3),
    )
}

/// The big-endian FIFO words that hold `bytes`, the tail filled with idle symbols.
pub open spec fn fifo_words(bytes: Seq<u8>) -> Seq<u32> {
    Seq::new(word_count(bytes.len()), |w: int| fifo_word(bytes, w))
}

/// The FIFO words of a packet.
pub open spec fn packet_words(pkt: Seq<u8>) -> Seq<u32> {
    fifo_words(encoded_bytes(pkt))
}

// The way back: what a receiver makes of the words that the player plays.

/// Symbol `j` of a FIFO word; the player consumes bits from the top.
pub open spec fn word_symbol(w: u32, j: int) -> u8 {
    ((w >> ((30 - 2 * j) as u32)) & 3) as u8
}

/// The symbols that the player takes from `words`.
pub open spec fn played_symbols(words: Seq<u32>) -> Seq<u8> {
    Seq::new((16 * words.len()) as nat, |i: int| word_symbol(words[i / 16], i % 16))
}

/// The symbols before the first SE0.
pub open spec fn until_eop(syms: Seq<u8>) -> Seq<u8>
    decreases syms.len(),
{
    if syms.len() == 0 || syms[0] == SYM_SE0 {
        Seq::empty()
    } else {
        seq![syms[0]] + until_eop(syms.drop_first())
    }
}

/// The line state before symbol `i`.
pub open spec fn level_before(syms: Seq<u8>, i: int) -> bool {
    i == 0 || syms[i - 1] == SYM_J
}

/// The bits of line symbols: a one bit where the line keeps its state.
pub open spec fn nrzi_decode(syms: Seq<u8>) -> Seq<bool> {
    Seq::new(syms.len(), |i: int| (syms[i] == SYM_J) == level_before(syms, i))
}

/// The number of one bits received in a row, as the receiver counts them.
pub open spec fn received_run(bits: Seq<bool>) -> nat
    decreases bits.len(),
{
    if bits.len() == 0 {
        0
    } else if received_run(bits.drop_last()) == 6 {
        0
    } else if bits.last() {
        received_run(bits.drop_last()) + 1
    } else {
        0
    }
}

/// `bits` without the bit after every six one bits in a row.
pub open spec fn unstuff(bits: Seq<bool>) -> Seq<bool>
    decreases bits.len(),
{
    if bits.len() == 0 {
        Seq::empty()
    } else if received_run(bits.drop_last()) == 6 {
        unstuff(bits.drop_last())
    } else {
        unstuff(bits.drop_last()).push(bits.last())
    }
}

/// The bytes that a receiver takes from the line while `words` are played.
pub open spec fn line_decode(words: Seq<u32>) -> Seq<u8> {
    bits::bytes_of(unstuff(nrzi_decode(until_eop(played_symbols(words)))))
}

/// Taking one more bit into account.
pub proof fn lemma_stuff_push(bits: Seq<bool>, b: bool)
    ensures
        ones_run(bits.push(b)) == (if !b || ones_run(bits) == 5 {
            0
        } else {
            ones_run(bits) + 1
        }),
        stuff(bits.push(b)) == (if b && ones_run(bits) == 5 {
            stuff(bits).push(true).push(false)
        } else {
            stuff(bits).push(b)
        }),
{
    assert(bits.push(b).drop_last() =~= bits);
}

/// Taking one more bit onto the line.
pub proof fn lemma_nrzi_push(bits: Seq<bool>, b: bool)
    ensures
        line_is_j(bits.push(b)) == (line_is_j(bits) == b),
        nrzi(bits.push(b)) == nrzi(bits).push(level_symbol(line_is_j(bits) == b)),
{
    let more = bits.push(b);
    assert(more.drop_last() =~= bits);
    assert(more.take(more.len() as int) =~= more);
    assert forall|i: int| 0 <= i < bits.len() implies nrzi(more)[i] == nrzi(bits)[i] by {
        assert(more.take(i + 1) =~= bits.take(i + 1));
    }
    assert(nrzi(more) =~= nrzi(bits).push(level_symbol(line_is_j(bits) == b)));
}

/// The line symbols of the first bits of a bit string come first.
pub proof fn lemma_line_prefix(bits: Seq<bool>, n: int)
    requires
        0 <= n <= bits.len(),
    ensures
        nrzi(stuff(bits.take(n))).is_prefix_of(nrzi(stuff(bits))),
    decreases bits.len() - n,
{
    if n == bits.len() {
        assert(bits.take(n) =~= bits);
    } else {
        lemma_line_prefix(bits, n + 1);
        let some = bits.take(n);
        assert(some.push(bits[n]) =~= bits.take(n + 1));
        lemma_stuff_push(some, bits[n]);
        lemma_nrzi_push(stuff(some), bits[n]);
        lemma_nrzi_push(stuff(some).push(true), false);
        let a = nrzi(stuff(some));
        let b = nrzi(stuff(bits.take(n + 1)));
        let c = nrzi(stuff(bits));
        assert(a =~= b.take(a.len() as int));
        assert(a =~= c.take(a.len() as int));
    }
}

/// How many stuff bits there can be: at most one for every six bits.
pub proof fn lemma_stuff_len(bits: Seq<bool>)
    ensures
        ones_run(bits) < 6,
        bits.len() <= stuff(bits).len(),
        6 * (stuff(bits).len() - bits.len()) + ones_run(bits) <= bits.len(),
    decreases bits.len(),
{
    if bits.len() > 0 {
        lemma_stuff_len(bits.drop_last());
    }
}

/// Unstuffing takes out the stuff bits and nothing else.
pub proof fn law_unstuff_undoes_stuff(bits: Seq<bool>)
    ensures
        unstuff(stuff(bits)) == bits,
        received_run(stuff(bits)) == ones_run(bits),
    decreases bits.len(),
{
    if bits.len() == 0 {
        assert(bits =~= Seq::empty());
    } else {
        let less = bits.drop_last();
        let b = bits.last();
        law_unstuff_undoes_stuff(less);
        lemma_stuff_len(less);
        let s = stuff(less);
        assert(s.push(b).drop_last() =~= s);
        assert(unstuff(s.push(b)) == less.push(b));
        assert(less.push(b) =~= bits);
        if b && ones_run(less) == 5 {
            assert(s.push(true).push(false).drop_last() =~= s.push(true));
            assert(received_run(s.push(true)) == 6);
        }
    }
}

/// The number of one bits at the end of a bit string.
pub open spec fn trailing_ones(bits: Seq<bool>) -> nat
    decreases bits.len(),
{
    if bits.len() == 0 || !bits.last() {
        0
    } else {
        trailing_ones(bits.drop_last()) + 1
    }
}

proof fn lemma_trailing_ones_stuffed(bits: Seq<bool>)
    ensures
        trailing_ones(stuff(bits)) == ones_run(bits),
    decreases bits.len(),
{
    if bits.len() > 0 {
        let less = bits.drop_last();
        lemma_trailing_ones_stuffed(less);
        assert(stuff(less).push(bits.last()).drop_last() =~= stuff(less));
        assert(stuff(less).push(true).push(false).drop_last() =~= stuff(less).push(true));
    }
}

proof fn lemma_trailing_ones(bits: Seq<bool>, k: int)
    requires
        0 <= k <= bits.len(),
        forall|j: int| k <= j < bits.len() ==> bits[j],
    ensures
        trailing_ones(bits) >= bits.len() - k,
    decreases bits.len() - k,
{
    if k < bits.len() {
        lemma_trailing_ones(bits.drop_last(), k);
    }
}

/// A stuffed bit string never holds seven one bits in a row.
pub proof fn law_stuffing_bounds_runs(bits: Seq<bool>, i: int)
    requires
        0 <= i,
        i + 7 <= stuff(bits).len(),
    ensures
        exists|j: int| i <= j < i + 7 && !stuff(bits)[j],
    decreases bits.len(),
{
    let s = stuff(bits);
    let less = bits.drop_last();
    lemma_stuff_len(less);
    lemma_trailing_ones_stuffed(less);
    if i + 7 <= stuff(less).len() {
        law_stuffing_bounds_runs(less, i);
        let j = choose|j: int| i <= j < i + 7 && !stuff(less)[j];
        assert(!s[j]);
    } else if bits.last() && ones_run(less) == 5 && i + 7 == s.len() {
        assert(!s[i + 6]);
    } else if !bits.last() {
        assert(!s[i + 6]);
    } else if forall|j: int| i <= j < i + 7 ==> s[j] {
        // Six of the seven are the last bits of the shorter string.
        assert forall|j: int| i <= j < stuff(less).len() implies stuff(less)[j] by {
            assert(s[j]);
        }
        lemma_trailing_ones(stuff(less), i);
        assert(false);
    }
}

/// Undoing NRZI gives the bits back.
pub proof fn law_nrzi_round_trip(bits: Seq<bool>)
    ensures
        nrzi_decode(nrzi(bits)) == bits,
{
    let syms = nrzi(bits);
    assert forall|i: int| 0 <= i < bits.len() implies nrzi_decode(syms)[i] == bits[i] by {
        let more = bits.take(i + 1);
        assert(more.drop_last() =~= bits.take(i));
        assert(more.last() == bits[i]);
        assert(line_is_j(more) == (line_is_j(bits.take(i)) == bits[i]));
        assert(syms[i] == level_symbol(line_is_j(more)));
        if i == 0 {
            assert(line_is_j(bits.take(0)));
        } else {
            assert(syms[i - 1] == level_symbol(line_is_j(bits.take(i - 1 + 1))));
        }
        assert(level_before(syms, i) == line_is_j(bits.take(i)));
    }
    assert(nrzi_decode(syms) =~= bits);
}

proof fn lemma_until_eop(line: Seq<u8>, rest: Seq<u8>)
    requires
        forall|i: int| 0 <= i < line.len() ==> line[i] != SYM_SE0,
        rest.len() > 0,
        rest[0] == SYM_SE0,
    ensures
        until_eop(line + rest) == line,
    decreases line.len(),
{
    if line.len() == 0 {
        assert(line + rest =~= rest);
        assert(line =~= Seq::empty());
    } else {
        lemma_until_eop(line.drop_first(), rest);
        assert((line + rest).drop_first() =~= line.drop_first() + rest);
        assert(seq![line[0]] + line.drop_first() =~= line);
    }
}

proof fn lemma_word_symbols(b0: u8, b1: u8, b2: u8, b3: u8)
    ensures
        forall|j: int|
            0 <= j < 16 ==> #[trigger] word_symbol(be_word(b0, b1, b2, b3), j) == byte_symbol(
                if j < 4 {
                    b0
                } else if j < 8 {
                    b1
                } else if j < 12 {
                    b2
                } else {
                    b3
                },
                j % 4,
            ),
{
    let w = be_word(b0, b1, b2, b3);
    assert forall|j: int| 0 <= j < 16 implies #[trigger] word_symbol(w, j) == byte_symbol(
        if j < 4 {
            b0
        } else if j < 8 {
            b1
        } else if j < 12 {
            b2
        } else {
            b3
        },
        j % 4,
    ) by {
        let s = (30 - 2 * j) as u32;
        let t = (6 - 2 * (j % 4)) as u8;
        let b = if j < 4 {
            b0
        } else if j < 8 {
            b1
        } else if j < 12 {
            b2
        } else {
            b3
        };
        let q: u32 = if j < 4 {
            24
        } else if j < 8 {
            16
        } else if j < 12 {
            8
        } else {
            0
        };
        assert(((w >> s) & 3) as u8 == (b >> t) & 3) by (bit_vector)
            requires
                w == (b0 as u32) << 24 | (b1 as u32) << 16 | (b2 as u32) << 8 | (b3 as u32),
                t <= 6,
                s == q + t as u32,
                q == 24 && b == b0 || q == 16 && b == b1 || q == 8 && b == b2 || q == 0 && b == b3,
        ;
    }
}

/// Symbol `k` of an encoded byte.
pub open spec fn byte_symbol(b: u8, k: int) -> u8 {
    (b >> ((6 - 2 * k) as u8)) & 3
}

proof fn lemma_pack4_symbols(s0: u8, s1: u8, s2: u8, s3: u8)
    requires
        s0 < 4,
        s1 < 4,
        s2 < 4,
        s3 < 4,
    ensures
        byte_symbol(pack4(s0, s1, s2, s3), 0) == s0,
        byte_symbol(pack4(s0, s1, s2, s3), 1) == s1,
        byte_symbol(pack4(s0, s1, s2, s3), 2) == s2,
        byte_symbol(pack4(s0, s1, s2, s3), 3) == s3,
{
    let b = pack4(s0, s1, s2, s3);
    assert((b >> 6u8) & 3 == s0 && (b >> 4u8) & 3 == s1 && (b >> 2u8) & 3 == s2 && (b >> 0u8) & 3 == s3)
        by (bit_vector)
        requires
            b == (s0 << 6) | (s1 << 4) | (s2 << 2) | s3,
            s0 < 4,
            s1 < 4,
            s2 < 4,
            s3 < 4,
    ;
}

/// The symbol stream of an encoded packet ends on a byte boundary.
pub proof fn lemma_packet_symbols_len(pkt: Seq<u8>)
    ensures
        packet_symbols(pkt).len() == line_symbols(pkt).len() + 2 + idle_count(line_symbols(pkt).len()),
        packet_symbols(pkt).len() % 4 == 0,
        4 * encoded_bytes(pkt).len() == packet_symbols(pkt).len(),
        forall|i: int| 0 <= i < packet_symbols(pkt).len() ==> packet_symbols(pkt)[i] < 4,
{
}

/// The line symbols come first, then the end of packet.
proof fn lemma_packet_symbols_start(pkt: Seq<u8>)
    ensures
        line_symbols(pkt).len() < packet_symbols(pkt).len(),
        packet_symbols(pkt)[line_symbols(pkt).len() as int] == SYM_SE0,
        forall|i: int|
            0 <= i < line_symbols(pkt).len() ==> packet_symbols(pkt)[i] == line_symbols(pkt)[i]
                && line_symbols(pkt)[i] != SYM_SE0,
{
}

/// Symbol `i` of symbols that were packed into words.
proof fn lemma_played_at(syms: Seq<u8>, i: int)
    requires
        syms.len() % 4 == 0,
        0 <= i < syms.len(),
        forall|k: int| 0 <= k < syms.len() ==> syms[k] < 4,
    ensures
        i < played_symbols(fifo_words(pack_symbols(syms))).len(),
        played_symbols(fifo_words(pack_symbols(syms)))[i] == syms[i],
{
    let bytes = pack_symbols(syms);
    let words = fifo_words(bytes);
    let w = i / 16;
    let j = i % 16;
    let k = i / 4;
    assert(k < bytes.len());
    assert(w < words.len());
    let b0 = byte_or_idle(bytes, 4 * w);
    let b1 = byte_or_idle(bytes, 4 * w + 1);
    let b2 = byte_or_idle(bytes, 4 * w + 2);
    let b3 = byte_or_idle(bytes, 4 * w + 3);
    lemma_word_symbols(b0, b1, b2, b3);
    assert(words[w] == be_word(b0, b1, b2, b3));
    assert(played_symbols(words)[i] == word_symbol(be_word(b0, b1, b2, b3), j));
    assert(k == 4 * w + j / 4);
    assert(j % 4 == i % 4);
    assert(played_symbols(words)[i] == byte_symbol(bytes[k], i % 4));
    lemma_pack4_symbols(syms[4 * k], syms[4 * k + 1], syms[4 * k + 2], syms[4 * k + 3]);
    assert(i == 4 * k + i % 4);
}

/// Symbol `i` behind symbols that were packed into words.
proof fn lemma_played_behind(syms: Seq<u8>, i: int)
    requires
        syms.len() % 4 == 0,
        syms.len() <= i < played_symbols(fifo_words(pack_symbols(syms))).len(),
    ensures
        played_symbols(fifo_words(pack_symbols(syms)))[i] == SYM_J,
{
    let bytes = pack_symbols(syms);
    let words = fifo_words(bytes);
    let w = i / 16;
    let j = i % 16;
    assert(w < words.len());
    let b0 = byte_or_idle(bytes, 4 * w);
    let b1 = byte_or_idle(bytes, 4 * w + 1);
    let b2 = byte_or_idle(bytes, 4 * w + 2);
    let b3 = byte_or_idle(bytes, 4 * w + 3);
    lemma_word_symbols(b0, b1, b2, b3);
    assert(words[w] == be_word(b0, b1, b2, b3));
    assert(played_symbols(words)[i] == word_symbol(be_word(b0, b1, b2, b3), j));
    assert(i / 4 == 4 * w + j / 4);
    assert(i / 4 >= bytes.len());
    assert(played_symbols(words)[i] == byte_symbol(IDLE_BYTE, j % 4));
    assert((0x55u8 >> 6u8) & 3 == 1 && (0x55u8 >> 4u8) & 3 == 1 && (0x55u8 >> 2u8) & 3 == 1 && (0x55u8 >> 0u8)
        & 3 == 1) by (bit_vector);
}

proof fn lemma_played_all(syms: Seq<u8>)
    requires
        syms.len() % 4 == 0,
        forall|k: int| 0 <= k < syms.len() ==> syms[k] < 4,
    ensures
        syms.is_prefix_of(played_symbols(fifo_words(pack_symbols(syms)))),
        forall|i: int|
            syms.len() <= i < played_symbols(fifo_words(pack_symbols(syms))).len()
                ==> #[trigger] played_symbols(fifo_words(pack_symbols(syms)))[i] == SYM_J,
{
    assert forall|i: int|
        syms.len() <= i < played_symbols(
            fifo_words(pack_symbols(syms)),
        ).len() implies #[trigger] played_symbols(fifo_words(pack_symbols(syms)))[i] == SYM_J by {
        lemma_played_behind(syms, i);
    }
    let played = played_symbols(fifo_words(pack_symbols(syms)));
    assert forall|i: int| 0 <= i < syms.len() implies i < played.len() && syms[i] == played[i] by {
        lemma_played_at(syms, i);
    }
    if syms.len() > 0 {
        lemma_played_at(syms, syms.len() - 1);
    }
    assert(syms =~= played.take(syms.len() as int));
}

/// The player takes the symbols of the packet from its FIFO words, in order, and
/// nothing but idle symbols behind them.
pub proof fn law_player_takes_packet_symbols(pkt: Seq<u8>)
    ensures
        packet_symbols(pkt).is_prefix_of(played_symbols(packet_words(pkt))),
        forall|i: int|
            packet_symbols(pkt).len() <= i < played_symbols(packet_words(pkt)).len()
                ==> #[trigger] played_symbols(packet_words(pkt))[i] == SYM_J,
{
    lemma_packet_symbols_len(pkt);
    lemma_played_all(packet_symbols(pkt));
}

proof fn lemma_played_line(line: Seq<u8>, syms: Seq<u8>, played: Seq<u8>)
    requires
        syms.is_prefix_of(played),
        line.len() < syms.len(),
        syms[line.len() as int] == SYM_SE0,
        forall|i: int| 0 <= i < line.len() ==> syms[i] == line[i] && line[i] != SYM_SE0,
    ensures
        until_eop(played) == line,
{
    let rest = played.skip(line.len() as int);
    assert(syms == played.take(syms.len() as int));
    assert(rest[0] == syms[line.len() as int]);
    assert forall|i: int| 0 <= i < line.len() implies line[i] == played[i] by {
        assert(syms[i] == line[i]);
    }
    assert(line + rest =~= played);
    lemma_until_eop(line, rest);
}

proof fn lemma_packet_played(pkt: Seq<u8>)
    ensures
        until_eop(played_symbols(packet_words(pkt))) == line_symbols(pkt),
{
    law_player_takes_packet_symbols(pkt);
    lemma_packet_symbols_start(pkt);
    lemma_played_line(line_symbols(pkt), packet_symbols(pkt), played_symbols(packet_words(pkt)));
}

proof fn lemma_line_symbols_hold_packet(pkt: Seq<u8>)
    ensures
        bits::bytes_of(unstuff(nrzi_decode(line_symbols(pkt)))) == pkt,
{
    let raw = bits::bits_of(pkt);
    law_nrzi_round_trip(stuff(raw));
    law_unstuff_undoes_stuff(raw);
    bits::lemma_bytes_of_bits_of(pkt);
}

/// Playing a packet's FIFO words puts exactly that packet on the line.
pub proof fn law_line_round_trip(pkt: Seq<u8>)
    ensures
        line_decode(packet_words(pkt)) == pkt,
{
    lemma_packet_played(pkt);
    lemma_line_symbols_hold_packet(pkt);
}

/// What the packet's symbols hold for bit `m`, and the encoder's state behind it.
pub proof fn lemma_symbols_of_bit(pkt: Seq<u8>, m: int)
    requires
        0 <= m < 8 * pkt.len(),
    ensures
        ({
            let raw = bits::bits_of(pkt);
            let full = packet_symbols(pkt);
            let before = raw.take(m);
            let after = raw.take(m + 1);
            let k = stuff(before).len() as int;
            let j = line_is_j(stuff(before)) == raw[m];
            let stuffed = raw[m] && ones_run(before) == 5;
            &&& k < full.len()
            &&& full[k] == level_symbol(j)
            &&& stuffed ==> k + 1 < full.len() && full[k + 1] == level_symbol(!j)
            &&& stuff(after).len() == (if stuffed {
                k + 2
            } else {
                k + 1
            })
            &&& line_is_j(stuff(after)) == (if stuffed {
                !j
            } else {
                j
            })
            &&& ones_run(after) == (if stuffed || !raw[m] {
                0
            } else {
                ones_run(before) + 1
            })
        }),
{
    let raw = bits::bits_of(pkt);
    let before = raw.take(m);
    let after = raw.take(m + 1);
    let s = stuff(before);
    assert(before.push(raw[m]) =~= after);
    lemma_stuff_push(before, raw[m]);
    lemma_nrzi_push(s, raw[m]);
    lemma_nrzi_push(s.push(true), false);
    lemma_line_prefix(raw, m + 1);
    let a = nrzi(stuff(after));
    let line = line_symbols(pkt);
    assert(a == line.take(a.len() as int));
    assert(line[s.len() as int] == a[s.len() as int]);
    if raw[m] && ones_run(before) == 5 {
        assert(line[s.len() as int + 1] == a[s.len() as int + 1]);
    }
}

/// The symbols behind the line symbols: SE0, COMP, then idle-J to the end.
pub proof fn lemma_symbols_of_eop(pkt: Seq<u8>)
    ensures
        ({
            let full = packet_symbols(pkt);
            let n = stuff(bits::bits_of(pkt)).len() as int;
            &&& n + 2 <= full.len() <= n + 5
            &&& full.len() % 4 == 0
            &&& full[n] == SYM_SE0
            &&& full[n + 1] == SYM_COMP
            &&& forall|i: int| n + 2 <= i < full.len() ==> full[i] == SYM_J
        }),
{
}

/// The size of an encoded packet, by its bit count alone.
pub proof fn lemma_encoded_len(pkt: Seq<u8>)
    ensures
        encoded_bytes(pkt).len() == (line_symbols(pkt).len() + 5) / 4,
        8 * pkt.len() <= line_symbols(pkt).len() <= 8 * pkt.len() + 8 * pkt.len() / 6,
{
    lemma_stuff_len(bits::bits_of(pkt));
    lemma_packet_symbols_len(pkt);
}

/// A packet of four bytes, such as a token, encodes to 9 or 10 symbol bytes, and
/// so to exactly three FIFO words.
pub proof fn law_four_byte_packet_size(pkt: Seq<u8>)
    requires
        pkt.len() == 4,
    ensures
        9 <= encoded_bytes(pkt).len() <= 10,
        packet_words(pkt).len() == 3,
{
    lemma_encoded_len(pkt);
}

/// No packet of at most 68 bytes (SYNC, PID, 64 bytes of payload and CRC16)
/// takes more than 160 symbol bytes or 40 FIFO words.
pub proof fn law_largest_packet_size(pkt: Seq<u8>)
    requires
        pkt.len() <= 68,
    ensures
        encoded_bytes(pkt).len() <= 160,
        packet_words(pkt).len() <= 40,
{
    lemma_encoded_len(pkt);
}

} // verus!
