//! Building packets and encoding them for the transmit FIFO.
use crate::bits;
use crate::crc;
use crate::crc::{calc_crc16, calc_crc5};
use crate::line_code;
use crate::line_code::{IDLE_BYTE, SYM_COMP, SYM_J, SYM_K, SYM_SE0};
use crate::pid::{USB_PID_ACK, USB_PID_SOF, USB_SYNC};
use vstd::prelude::*;

verus! {

/// Maximum DATA payload handled by this host for control, bulk, and interrupt endpoints.
///
/// Low-/full-speed endpoint maximum packet sizes for the transfer types this
/// crate implements are at most 64 bytes (USB 2.0 chapters 5.5, 5.7, and 5.8).
pub const MAX_DATA_PAYLOAD_BYTES: usize = 64;

/// Maximum raw packet buffer: SYNC, PID, DATA payload, and CRC16.
pub const MAX_DATA_PACKET_BYTES: usize = 68;

/// Worst-case encoded symbol bytes for a 64-byte DATA packet.
///
/// Bit stuffing inserts at most one bit after every six consecutive one bits
/// (USB 2.0 §7.1.9). This bound covers SYNC/PID/payload/CRC16 plus EOP and idle
/// padding.
pub const MAX_ENCODED_PACKET_BYTES: usize = 160;

/// FIFO words required by [`MAX_ENCODED_PACKET_BYTES`].
pub const MAX_DATA_PACKET_WORDS: usize = 40;

/// FIFO-ready encoding of `[SYNC, ACK]`.
pub const ACK_PACKET: [u32; 2] = [0xdddf5d7f, 0x25555555];

/// FIFO-ready low-speed keep-alive packet.
///
/// The empty packet encodes to the EOP sequence plus idle padding; at the
/// low-speed TX clock the SE0 interval is exactly two low-speed bit times, the
/// keep-alive form required by USB 2.0 §11.8.4.1.
pub const LS_KEEPALIVE_PACKET: [u32; 1] = [0x25555555];

/// Where the next symbol goes.
struct SymbolWriter {
    /// The byte that takes the next symbol.
    byte_idx: usize,
    /// How many symbols that byte holds already.
    fill: u8,
}

/// The last `k % 4` of the first `k` symbols of `full` are in the low bits of `byte`.
spec fn holds_tail(byte: u8, full: Seq<u8>, k: int) -> bool {
    &&& k % 4 == 1 ==> byte & 0x03 == full[k - 1]
    &&& k % 4 == 2 ==> byte & 0x0f == (full[k - 2] << 2) | full[k - 1]
    &&& k % 4 == 3 ==> byte & 0x3f == (full[k - 3] << 4) | (full[k - 2] << 2) | full[k - 1]
}

impl SymbolWriter {
    /// The first `k` symbols of `full` stand in `out`, which was `orig`.
    spec fn wrote(self, out: Seq<u8>, orig: Seq<u8>, full: Seq<u8>, k: int) -> bool {
        &&& out.len() == orig.len()
        &&& full.len() % 4 == 0
        &&& 0 <= k <= full.len()
        &&& self.byte_idx == k / 4
        &&& self.fill == k % 4
        &&& self.byte_idx <= out.len()
        &&& forall|i: int| 0 <= i < k / 4 ==> out[i] == line_code::pack_symbols(full)[i]
        &&& forall|i: int| k / 4 < i < out.len() ==> out[i] == orig[i]
        &&& k % 4 == 0 && k / 4 < out.len() ==> out[k / 4] == orig[k / 4]
        &&& k % 4 != 0 ==> k / 4 < out.len() && holds_tail(out[k / 4], full, k)
    }

    /// Append a 2-bit symbol, if there is room for it.
    fn put(
        &mut self,
        out: &mut [u8],
        sym: u8,
        Ghost(orig): Ghost<Seq<u8>>,
        Ghost(full): Ghost<Seq<u8>>,
        Ghost(k): Ghost<int>,
    ) -> (done: bool)
        requires
            old(self).wrote(old(out)@, orig, full, k),
            k < full.len(),
            sym == full[k],
            forall|i: int| 0 <= i < full.len() ==> full[i] < 4,
        ensures
            final(out)@.len() == orig.len(),
            done ==> final(self).wrote(final(out)@, orig, full, k + 1),
            !done ==> line_code::pack_symbols(full).len() > orig.len() && final(out)@
                == line_code::pack_symbols(full).take(orig.len() as int),
    {
        if self.byte_idx >= out.len() {
            assert(out@ =~= line_code::pack_symbols(full).take(orig.len() as int));
            return false;
        }
        let before = out[self.byte_idx];
        let after = (before << 2) | sym;
        proof {
            let f = full;
            if k % 4 == 0 {
                assert(after & 0x03 == sym) by (bit_vector)
                    requires
                        after == (before << 2) | sym,
                        sym < 4,
                ;
            } else if k % 4 == 1 {
                let s0 = f[k - 1];
                assert(after & 0x0f == (s0 << 2) | sym) by (bit_vector)
                    requires
                        after == (before << 2) | sym,
                        before & 0x03 == s0,
                        sym < 4,
                ;
            } else if k % 4 == 2 {
                let s0 = f[k - 2];
                let s1 = f[k - 1];
                assert(after & 0x3f == (s0 << 4) | (s1 << 2) | sym) by (bit_vector)
                    requires
                        after == (before << 2) | sym,
                        before & 0x0f == (s0 << 2) | s1,
                        s0 < 4,
                        sym < 4,
                ;
            } else {
                let s0 = f[k - 3];
                let s1 = f[k - 2];
                let s2 = f[k - 1];
                assert(after == (s0 << 6) | (s1 << 4) | (s2 << 2) | sym) by (bit_vector)
                    requires
                        after == (before << 2) | sym,
                        before & 0x3f == (s0 << 4) | (s1 << 2) | s2,
                        s0 < 4,
                        sym < 4,
                ;
                assert(4 * (k / 4) == k - 3);
            }
        }
        out[self.byte_idx] = after;
        if self.fill == 3 {
            self.byte_idx += 1;
            self.fill = 0;
        } else {
            self.fill += 1;
        }
        true
    }
}

/// Encode a raw USB packet into the 2-bit symbols consumed by the TX PIO player.
///
/// USB transmits each byte LSB-first, uses NRZI where zero bits cause a
/// transition (USB 2.0 §7.1.8), and inserts a stuff bit after six consecutive
/// one bits (§7.1.9). The resulting line symbols are packed four per byte,
/// most-significant symbol first, because the PIO player consumes bits from the
/// MSB end of each FIFO word.
///
/// Appends the low-/full-speed EOP sequence (§7.1.7.2) as `SE0` then `COMP`
/// and pads with idle-J symbols to a byte boundary. Returns the number of
/// encoded bytes written to `out`, or `None` if they do not fit.
///
/// `out` must have room for two encoded bits per input bit, worst-case stuffing,
/// EOP, and up to three alignment symbols. Its initial contents are irrelevant.
pub fn encode_tx_data(buffer: &[u8], out: &mut [u8]) -> (r: Option<usize>)
    ensures
        final(out)@.len() == old(out)@.len(),
        match r {
            Some(n) => n == line_code::encoded_bytes(buffer@).len() && n <= old(out)@.len(),
            None => line_code::encoded_bytes(buffer@).len() > old(out)@.len(),
        },
        final(out)@ == scratch_after(old(out)@, buffer@),
{
    let ghost orig = out@;
    let ghost raw = bits::bits_of(buffer@);
    let ghost full = line_code::packet_symbols(buffer@);
    let mut writer = SymbolWriter { byte_idx: 0, fill: 0 };
    let mut state_j = true;  // current NRZI line state
    let mut stuffing: u8 = 6;
    proof {
        line_code::lemma_packet_symbols_len(buffer@);
        assert(raw.take(0) =~= Seq::<bool>::empty());
    }
    let mut i: usize = 0;
    while i < buffer.len()
        invariant
            i <= buffer@.len(),
            orig == old(out)@,
            raw == bits::bits_of(buffer@),
            full == line_code::packet_symbols(buffer@),
            forall|x: int| 0 <= x < full.len() ==> full[x] < 4,
            writer.wrote(out@, orig, full, line_code::stuff(raw.take(8 * i)).len() as int),
            state_j == line_code::line_is_j(line_code::stuff(raw.take(8 * i))),
            stuffing == 6 - line_code::ones_run(raw.take(8 * i)),
            1 <= stuffing <= 6,
        decreases buffer@.len() - i,
    {
        let data_byte = buffer[i];
        let mut b: u8 = 0;
        while b < 8
            invariant
                i < buffer@.len(),
                data_byte == buffer@[i as int],
                b <= 8,
                orig == old(out)@,
                raw == bits::bits_of(buffer@),
                full == line_code::packet_symbols(buffer@),
                forall|x: int| 0 <= x < full.len() ==> full[x] < 4,
                writer.wrote(out@, orig, full, line_code::stuff(raw.take(8 * i + b)).len() as int),
                state_j == line_code::line_is_j(line_code::stuff(raw.take(8 * i + b))),
                stuffing == 6 - line_code::ones_run(raw.take(8 * i + b)),
                1 <= stuffing <= 6,
            decreases 8 - b,
        {
            let ghost m = 8 * i + b;
            let ghost k = line_code::stuff(raw.take(m)).len() as int;
            proof {
                line_code::lemma_symbols_of_bit(buffer@, m);
                line_code::lemma_stuff_len(raw.take(m + 1));
                assert(m / 8 == i && m % 8 == b);
                assert((data_byte & (1u8 << b) != 0) == ((data_byte >> b) & 1 == 1)) by (bit_vector)
                    requires
                        b < 8,
                ;
            }
            if data_byte & (1u8 << b) != 0 {
                // '1': no transition; emit the symbol for the current state.
                if !writer.put(out, if state_j { SYM_J } else { SYM_K }, Ghost(orig), Ghost(full), Ghost(k)) {
                    return None;
                }
                stuffing -= 1;
            } else {
                // '0': transition.
                state_j = !state_j;
                if !writer.put(out, if state_j { SYM_J } else { SYM_K }, Ghost(orig), Ghost(full), Ghost(k)) {
                    return None;
                }
                stuffing = 6;
            }
            if stuffing == 0 {
                // Insert a stuff bit (forced transition).
                state_j = !state_j;
                if !writer.put(out, if state_j { SYM_J } else { SYM_K }, Ghost(orig), Ghost(full), Ghost(k + 1)) {
                    return None;
                }
                stuffing = 6;
            }
            b += 1;
        }
        i += 1;
    }
    let ghost n = line_code::stuff(raw).len() as int;
    proof {
        assert(raw.take(8 * i) =~= raw);
        line_code::lemma_symbols_of_eop(buffer@);
    }
    // EOP marker: SE0 then COMP (the player turns COMP into the real EOP).
    if !writer.put(out, SYM_SE0, Ghost(orig), Ghost(full), Ghost(n)) {
        return None;
    }
    if !writer.put(out, SYM_COMP, Ghost(orig), Ghost(full), Ghost(n + 1)) {
        return None;
    }
    // Terminate the buffer with idle-J until byte-aligned.
    let ghost mut k = n + 2;
    while writer.fill != 0
        invariant
            n + 2 <= k <= full.len(),
            full.len() <= n + 5,
            writer.wrote(out@, orig, full, k),
            orig == old(out)@,
            full == line_code::packet_symbols(buffer@),
            full.len() % 4 == 0,
            forall|x: int| 0 <= x < full.len() ==> full[x] < 4,
            forall|x: int| n + 2 <= x < full.len() ==> full[x] == SYM_J,
        decreases full.len() - k,
    {
        if !writer.put(out, SYM_J, Ghost(orig), Ghost(full), Ghost(k)) {
            return None;
        }
        proof {
            k = k + 1;
        }
    }
    assert(k == full.len());
    assert(out@ =~= line_code::encoded_bytes(buffer@) + orig.skip(writer.byte_idx as int));
    Some(writer.byte_idx)
}

/// Repack the encoder's MSB-first symbol **bytes** into big-endian u32 **words**
/// for the TX FIFO.
///
/// With `shift_out` = Left and an `auto_fill` threshold of 32, `out pc, 2`
/// consumes bits \[31:30\] first, so byte 0 (which holds the first 4 symbols in
/// its top bits) must sit in bits \[31:24\]: `word = b0<<24 | b1<<16 | b2<<8 | b3`.
/// The tail is padded with `0x55` (four idle-J symbols): harmless trailing Js
/// after EOP, since COMP has already released the bus. Returns the word count, or
/// `None` if `words` is too short.
pub fn repack_for_fifo(encoded: &[u8], words: &mut [u32]) -> (r: Option<usize>)
    ensures
        match r {
            Some(n) => {
                &&& n == line_code::fifo_words(encoded@).len()
                &&& n <= old(words)@.len()
                &&& final(words)@ == line_code::fifo_words(encoded@) + old(words)@.skip(n as int)
            },
            None => {
                &&& line_code::fifo_words(encoded@).len() > old(words)@.len()
                &&& final(words)@ == old(words)@
            },
        },
{
    let ghost orig = words@;
    let len = encoded.len();
    let n_words: usize = len / 4 + (if len % 4 != 0 {
        1
    } else {
        0
    });
    if n_words > words.len() {
        return None;
    }
    let mut w: usize = 0;
    while w < n_words
        invariant
            w <= n_words <= orig.len(),
            len == encoded@.len(),
            n_words == line_code::word_count(encoded@.len()),
            words@.len() == orig.len(),
            orig == old(words)@,
            forall|i: int| 0 <= i < w ==> words@[i] == line_code::fifo_word(encoded@, i),
            forall|i: int| w <= i < orig.len() ==> words@[i] == orig[i],
        decreases n_words - w,
    {
        // Idle-J symbols fill the partial tail.
        let start = 4 * w;
        let b0 = encoded[start];
        let b1 = if len - start > 1 {
            encoded[start + 1]
        } else {
            IDLE_BYTE
        };
        let b2 = if len - start > 2 {
            encoded[start + 2]
        } else {
            IDLE_BYTE
        };
        let b3 = if len - start > 3 {
            encoded[start + 3]
        } else {
            IDLE_BYTE
        };
        words[w] = (b0 as u32) << 24 | (b1 as u32) << 16 | (b2 as u32) << 8 | (b3 as u32);
        w += 1;
    }
    assert(words@ =~= line_code::fifo_words(encoded@) + orig.skip(n_words as int));
    Some(n_words)
}

/// What encoding `pkt` leaves of a symbol buffer: as many encoded bytes as it
/// holds, and behind them what was there.
pub open spec fn scratch_after(before: Seq<u8>, pkt: Seq<u8>) -> Seq<u8> {
    let encoded = line_code::encoded_bytes(pkt);
    if encoded.len() <= before.len() {
        encoded + before.skip(encoded.len() as int)
    } else {
        encoded.take(before.len() as int)
    }
}

/// Encode one USB packet into FIFO `words`, returning the word count.
///
/// `scratch` takes the encoded symbol bytes on the way. `None` says that they, or
/// the words, do not fit.
pub fn encode<const N: usize>(pkt: &[u8], scratch: &mut [u8; N], words: &mut [u32]) -> (r: Option<usize>)
    ensures
        match r {
            Some(n) => {
                &&& n == line_code::packet_words(pkt@).len()
                &&& line_code::encoded_bytes(pkt@).len() <= N
                &&& n <= old(words)@.len()
                &&& final(words)@ == line_code::packet_words(pkt@) + old(words)@.skip(n as int)
            },
            None => {
                &&& line_code::encoded_bytes(pkt@).len() > N || line_code::packet_words(pkt@).len()
                    > old(words)@.len()
                &&& final(words)@ == old(words)@
            },
        },
        final(scratch)@ == scratch_after(old(scratch)@, pkt@),
{
    match encode_tx_data(pkt, scratch) {
        Some(n) => {
            let encoded = vstd::slice::slice_subrange(scratch.as_slice(), 0, n);
            assert(encoded@ =~= line_code::encoded_bytes(pkt@));
            repack_for_fifo(encoded, words)
        },
        None => None,
    }
}

/// The raw SOF packet for a frame number: SYNC, PID, and the low eleven bits of
/// the frame number followed by their CRC5 (USB 2.0 §8.4.3).
pub open spec fn sof_packet(frame: u16) -> Seq<u8> {
    field_packet(USB_PID_SOF, frame & 0x7ff)
}

/// The raw token packet: the 11-bit field is the 7-bit device address below the
/// 4-bit endpoint number (USB 2.0 §8.4.1).
pub open spec fn token_packet(pid: u8, addr: u8, ep: u8) -> Seq<u8> {
    field_packet(pid, token_field(addr, ep))
}

/// The 11-bit field of a token.
pub open spec fn token_field(addr: u8, ep: u8) -> u16 {
    ((ep & 0x0f) as u16) << 7 | (addr & 0x7f) as u16
}

/// A packet of an 11-bit field: SYNC, PID, the field least significant bits
/// first, and its CRC5 in the top five bits.
pub open spec fn field_packet(pid: u8, field: u16) -> Seq<u8> {
    seq![USB_SYNC, pid, (field & 0xff) as u8, ((field >> 8) & 0x07) as u8 | crc::crc5_spec(field) << 3]
}

/// The raw DATA packet: SYNC, PID, payload, and the payload's CRC16 low byte
/// first (USB 2.0 §8.4.4 and §8.3.5).
pub open spec fn data_packet(pid: u8, payload: Seq<u8>) -> Seq<u8> {
    seq![USB_SYNC, pid] + payload + seq![
        crc::crc_lo(crc::crc16_spec(payload)),
        crc::crc_hi(crc::crc16_spec(payload)),
    ]
}

/// Encode a packet of four bytes.
fn encode_four(pkt: &[u8; 4]) -> (words: [u32; 3])
    ensures
        words@ == line_code::packet_words(pkt@),
{
    let mut scratch = [0u8; 12];
    let mut words = [0x55555555u32; 3];
    proof {
        line_code::law_four_byte_packet_size(pkt@);
    }
    let n = encode(pkt.as_slice(), &mut scratch, &mut words);
    assert(n == Some(3usize));
    assert(words@ =~= line_code::packet_words(pkt@));
    words
}

/// Build a FIFO-ready SOF packet for an 11-bit frame number.
///
/// SOF token format and the 11-bit frame number are defined in USB 2.0 §8.4.3.
/// SOF packets encode to 9 or 10 symbol-bytes after bit-stuffing, so they always
/// fit in exactly three FIFO words.
pub fn build_sof(frame: u16) -> (words: [u32; 3])
    ensures
        words@ == line_code::packet_words(sof_packet(frame)),
{
    let f = frame & 0x7ff;
    let crc5 = calc_crc5(f);
    let pkt = [USB_SYNC, USB_PID_SOF, (f & 0xff) as u8, (((f >> 8) & 0x07) as u8) | (crc5 << 3)];
    assert(pkt@ =~= sof_packet(frame));
    encode_four(&pkt)
}

/// Build a FIFO-ready token packet.
///
/// `pid` is IN, OUT, or SETUP; `addr` is the 7-bit device address and `ep` the
/// 4-bit endpoint number. Token packet format is defined in USB 2.0 §8.4.1.
///
/// Token packets encode to 9 or 10 symbol-bytes after bit-stuffing, so they
/// always fit in exactly 3 FIFO words.
pub fn build_token(pid: u8, addr: u8, ep: u8) -> (words: [u32; 3])
    ensures
        words@ == line_code::packet_words(token_packet(pid, addr, ep)),
{
    let dat: u16 = (((ep & 0x0f) as u16) << 7) | (addr & 0x7f) as u16;
    let crc5 = calc_crc5(dat);
    proof {
        assert((crc5 << 3) | (((dat >> 8) & 0x1f) as u8) == ((dat >> 8) & 0x07) as u8 | crc5 << 3)
            by (bit_vector)
            requires
                dat == (((ep & 0x0f) as u16) << 7) | (addr & 0x7f) as u16,
        ;
    }
    let pkt = [USB_SYNC, pid, (dat & 0xff) as u8, (crc5 << 3) | (((dat >> 8) & 0x1f) as u8)];
    assert(pkt@ =~= token_packet(pid, addr, ep));
    encode_four(&pkt)
}

/// Build the raw `[SYNC, DATAx, payload, CRC16]` packet before line encoding.
///
/// `None` says that the payload is longer than a packet carries, or that `out` is
/// too short for the packet; `out` is then left as it was.
pub fn build_data_packet(pid: u8, payload: &[u8], out: &mut [u8]) -> (r: Option<usize>)
    ensures
        match r {
            Some(n) => {
                &&& payload@.len() <= MAX_DATA_PAYLOAD_BYTES
                &&& n == payload@.len() + 4
                &&& n <= old(out)@.len()
                &&& final(out)@ == data_packet(pid, payload@) + old(out)@.skip(n as int)
            },
            None => {
                &&& payload@.len() > MAX_DATA_PAYLOAD_BYTES || old(out)@.len() < payload@.len() + 4
                &&& final(out)@ == old(out)@
            },
        },
{
    if payload.len() > MAX_DATA_PAYLOAD_BYTES || out.len() < payload.len() + 4 {
        return None;
    }
    let ghost orig = out@;
    out[0] = USB_SYNC;
    out[1] = pid;
    let mut len: usize = 2;
    while len < payload.len() + 2
        invariant
            2 <= len <= payload@.len() + 2,
            payload@.len() <= MAX_DATA_PAYLOAD_BYTES,
            out@.len() == orig.len() >= payload@.len() + 4,
            out@[0] == USB_SYNC,
            out@[1] == pid,
            forall|i: int| 2 <= i < len ==> out@[i] == payload@[i - 2],
            forall|i: int| len <= i < orig.len() ==> out@[i] == orig[i],
        decreases payload@.len() + 2 - len,
    {
        out[len] = payload[len - 2];
        len += 1;
    }
    let crc = calc_crc16(payload);
    out[len] = (crc & 0xff) as u8;
    out[len + 1] = (crc >> 8) as u8;
    assert(out@ =~= data_packet(pid, payload@) + orig.skip(len + 2));
    Some(len + 2)
}

/// When [`build_data`] succeeds: the payload fits a packet, the packet fits its
/// buffer, and so do its symbol bytes and its words.
pub open spec fn data_fits(pid: u8, payload: Seq<u8>, packet: nat, scratch: nat, words: nat) -> bool {
    &&& payload.len() <= MAX_DATA_PAYLOAD_BYTES
    &&& payload.len() + 4 <= packet
    &&& line_code::encoded_bytes(data_packet(pid, payload)).len() <= scratch
    &&& line_code::packet_words(data_packet(pid, payload)).len() <= words
}

/// Build a FIFO-ready DATA0/DATA1 packet into `words`.
///
/// DATA packet format and CRC16 placement are defined in USB 2.0 §8.4.4 and
/// §8.3.5. `pid` must be `USB_PID_DATA0` or `USB_PID_DATA1`.
///
/// `packet` must be at least `payload.len() + 4` bytes. `scratch` must be large
/// enough for the encoded symbol bytes, and `words` must be large enough for the
/// FIFO words. Returns the initialized part of `words`.
pub fn build_data<'w, const N: usize>(
    pid: u8,
    payload: &[u8],
    packet: &mut [u8],
    scratch: &mut [u8; N],
    words: &'w mut [u32],
) -> (r: Option<&'w [u32]>)
    ensures
        r is Some <==> data_fits(pid, payload@, old(packet)@.len(), N as nat, old(words)@.len()),
        r matches Some(w) ==> w@ == line_code::packet_words(data_packet(pid, payload@)),
        r is Some ==> final(words)@ == line_code::packet_words(data_packet(pid, payload@))
            + old(words)@.skip(line_code::packet_words(data_packet(pid, payload@)).len() as int),
        r is None ==> final(words)@ == old(words)@,
        final(packet)@ == (if payload@.len() <= MAX_DATA_PAYLOAD_BYTES && payload@.len() + 4
            <= old(packet)@.len() {
            data_packet(pid, payload@) + old(packet)@.skip(payload@.len() as int + 4)
        } else {
            old(packet)@
        }),
        final(scratch)@ == (if payload@.len() > MAX_DATA_PAYLOAD_BYTES || payload@.len() + 4
            > old(packet)@.len() {
            old(scratch)@
        } else {
            scratch_after(old(scratch)@, data_packet(pid, payload@))
        }),
{
    match build_data_packet(pid, payload, packet) {
        Some(n) => {
            let raw = vstd::slice::slice_subrange(packet, 0, n);
            assert(raw@ =~= data_packet(pid, payload@));
            match encode(raw, scratch, words) {
                Some(m) => {
                    let w = vstd::slice::slice_subrange(words, 0, m);
                    assert(w@ =~= line_code::packet_words(data_packet(pid, payload@)));
                    Some(w)
                },
                None => None,
            }
        },
        None => None,
    }
}

/// With buffers of the sizes that the crate provides, every payload of at most 64
/// bytes can be sent.
pub proof fn law_data_buffers_suffice(pid: u8, payload: Seq<u8>)
    ensures
        data_fits(
            pid,
            payload,
            MAX_DATA_PACKET_BYTES as nat,
            MAX_ENCODED_PACKET_BYTES as nat,
            MAX_DATA_PACKET_WORDS as nat,
        ) <==> payload.len() <= MAX_DATA_PAYLOAD_BYTES,
{
    if payload.len() <= MAX_DATA_PAYLOAD_BYTES {
        line_code::law_largest_packet_size(data_packet(pid, payload));
    }
}

/// [`LS_KEEPALIVE_PACKET`] is the encoding of the empty packet.
pub proof fn lemma_keepalive_packet()
    ensures
        LS_KEEPALIVE_PACKET@ == line_code::packet_words(Seq::empty()),
{
    let pkt = Seq::<u8>::empty();
    assert(bits::bits_of(pkt) =~= Seq::<bool>::empty());
    let full = line_code::packet_symbols(pkt);
    assert(full =~= seq![0u8, 2u8, 1u8, 1u8]);
    assert(line_code::pack4(0, 2, 1, 1) == 0x25 && line_code::be_word(0x25, 0x55, 0x55, 0x55) == 0x25555555)
        by (bit_vector);
    assert(line_code::encoded_bytes(pkt) =~= seq![0x25u8]);
    assert(LS_KEEPALIVE_PACKET@ =~= line_code::packet_words(pkt));
}

/// The symbols of the packet `[SYNC, ACK]`, written out.
spec fn ack_symbols() -> Seq<u8> {
    seq![
        3u8, 1u8, 3u8, 1u8,
        3u8, 1u8, 3u8, 3u8,
        1u8, 1u8, 3u8, 1u8,
        1u8, 3u8, 3u8, 3u8,
        0u8, 2u8, 1u8, 1u8,
    ]
}

proof fn lemma_ack_symbols()
    ensures
        line_code::packet_symbols(seq![USB_SYNC, USB_PID_ACK]) == ack_symbols(),
{
    let pkt = seq![USB_SYNC, USB_PID_ACK];
    let raw = bits::bits_of(pkt);
    let full = line_code::packet_symbols(pkt);
    assert((0x80u8 >> 0u8) & 1 == 0 && (0x80u8 >> 1u8) & 1 == 0 && (0x80u8 >> 2u8) & 1 == 0 && (0x80u8 >> 3u8) & 1 == 0
        && (0x80u8 >> 4u8) & 1 == 0 && (0x80u8 >> 5u8) & 1 == 0 && (0x80u8 >> 6u8) & 1 == 0 && (0x80u8 >> 7u8) & 1 == 1
        && (0xD2u8 >> 0u8) & 1 == 0 && (0xD2u8 >> 1u8) & 1 == 1 && (0xD2u8 >> 2u8) & 1 == 0 && (0xD2u8 >> 3u8) & 1 == 0
        && (0xD2u8 >> 4u8) & 1 == 1 && (0xD2u8 >> 5u8) & 1 == 0 && (0xD2u8 >> 6u8) & 1 == 1 && (0xD2u8 >> 7u8) & 1 == 1) by (bit_vector);
    assert(raw.take(0) =~= Seq::<bool>::empty());
    assert(raw[0] == false);
    assert(raw[1] == false);
    assert(raw[2] == false);
    assert(raw[3] == false);
    assert(raw[4] == false);
    assert(raw[5] == false);
    assert(raw[6] == false);
    assert(raw[7] == true);
    assert(raw[8] == false);
    assert(raw[9] == true);
    assert(raw[10] == false);
    assert(raw[11] == false);
    assert(raw[12] == true);
    assert(raw[13] == false);
    assert(raw[14] == true);
    assert(raw[15] == true);
    line_code::lemma_symbols_of_bit(pkt, 0);
    assert(raw.take(1).len() == 1 && full[0] == 3 && line_code::ones_run(raw.take(1)) == 0);
    line_code::lemma_symbols_of_bit(pkt, 1);
    assert(raw.take(2).len() == 2 && full[1] == 1 && line_code::ones_run(raw.take(2)) == 0);
    line_code::lemma_symbols_of_bit(pkt, 2);
    assert(raw.take(3).len() == 3 && full[2] == 3 && line_code::ones_run(raw.take(3)) == 0);
    line_code::lemma_symbols_of_bit(pkt, 3);
    assert(raw.take(4).len() == 4 && full[3] == 1 && line_code::ones_run(raw.take(4)) == 0);
    line_code::lemma_symbols_of_bit(pkt, 4);
    assert(raw.take(5).len() == 5 && full[4] == 3 && line_code::ones_run(raw.take(5)) == 0);
    line_code::lemma_symbols_of_bit(pkt, 5);
    assert(raw.take(6).len() == 6 && full[5] == 1 && line_code::ones_run(raw.take(6)) == 0);
    line_code::lemma_symbols_of_bit(pkt, 6);
    assert(raw.take(7).len() == 7 && full[6] == 3 && line_code::ones_run(raw.take(7)) == 0);
    line_code::lemma_symbols_of_bit(pkt, 7);
    assert(raw.take(8).len() == 8 && full[7] == 3 && line_code::ones_run(raw.take(8)) == 1);
    line_code::lemma_symbols_of_bit(pkt, 8);
    assert(raw.take(9).len() == 9 && full[8] == 1 && line_code::ones_run(raw.take(9)) == 0);
    line_code::lemma_symbols_of_bit(pkt, 9);
    assert(raw.take(10).len() == 10 && full[9] == 1 && line_code::ones_run(raw.take(10)) == 1);
    line_code::lemma_symbols_of_bit(pkt, 10);
    assert(raw.take(11).len() == 11 && full[10] == 3 && line_code::ones_run(raw.take(11)) == 0);
    line_code::lemma_symbols_of_bit(pkt, 11);
    assert(raw.take(12).len() == 12 && full[11] == 1 && line_code::ones_run(raw.take(12)) == 0);
    line_code::lemma_symbols_of_bit(pkt, 12);
    assert(raw.take(13).len() == 13 && full[12] == 1 && line_code::ones_run(raw.take(13)) == 1);
    line_code::lemma_symbols_of_bit(pkt, 13);
    assert(raw.take(14).len() == 14 && full[13] == 3 && line_code::ones_run(raw.take(14)) == 0);
    line_code::lemma_symbols_of_bit(pkt, 14);
    assert(raw.take(15).len() == 15 && full[14] == 3 && line_code::ones_run(raw.take(15)) == 1);
    line_code::lemma_symbols_of_bit(pkt, 15);
    assert(raw.take(16).len() == 16 && full[15] == 3 && line_code::ones_run(raw.take(16)) == 2);
    assert(raw.take(16) =~= raw);
    line_code::lemma_symbols_of_eop(pkt);
    assert(full =~= ack_symbols());
}

proof fn lemma_ack_bytes()
    ensures
        line_code::pack_symbols(ack_symbols()) == seq![0xddu8, 0xdfu8, 0x5du8, 0x7fu8, 0x25u8],
{
    let syms = ack_symbols();
    let bytes = line_code::pack_symbols(syms);
    assert(line_code::pack4(3, 1, 3, 1) == 0xdd && line_code::pack4(3, 1, 3, 3) == 0xdf
        && line_code::pack4(1, 1, 3, 1) == 0x5d && line_code::pack4(1, 3, 3, 3) == 0x7f
        && line_code::pack4(0, 2, 1, 1) == 0x25) by (bit_vector);
    assert(bytes.len() == 5);
    assert(bytes[0] == line_code::pack4(syms[0], syms[1], syms[2], syms[3]));
    assert(bytes[1] == line_code::pack4(syms[4], syms[5], syms[6], syms[7]));
    assert(bytes[2] == line_code::pack4(syms[8], syms[9], syms[10], syms[11]));
    assert(bytes[3] == line_code::pack4(syms[12], syms[13], syms[14], syms[15]));
    assert(bytes[4] == line_code::pack4(syms[16], syms[17], syms[18], syms[19]));
    assert(bytes =~= seq![0xddu8, 0xdfu8, 0x5du8, 0x7fu8, 0x25u8]);
}

proof fn lemma_ack_words()
    ensures
        line_code::fifo_words(seq![0xddu8, 0xdfu8, 0x5du8, 0x7fu8, 0x25u8]) == seq![
            0xdddf5d7fu32,
            0x25555555u32,
        ],
{
    let bytes = seq![0xddu8, 0xdfu8, 0x5du8, 0x7fu8, 0x25u8];
    assert(line_code::be_word(0xdd, 0xdf, 0x5d, 0x7f) == 0xdddf5d7f
        && line_code::be_word(0x25, 0x55, 0x55, 0x55) == 0x25555555) by (bit_vector);
    assert(line_code::fifo_word(bytes, 0) == 0xdddf5d7f);
    assert(line_code::fifo_word(bytes, 1) == 0x25555555);
    assert(line_code::fifo_words(bytes) =~= seq![0xdddf5d7fu32, 0x25555555u32]);
}

/// [`ACK_PACKET`] is the encoding of `[SYNC, ACK]`.
pub proof fn lemma_ack_packet()
    ensures
        ACK_PACKET@ == line_code::packet_words(seq![USB_SYNC, USB_PID_ACK]),
{
    lemma_ack_symbols();
    lemma_ack_bytes();
    lemma_ack_words();
    assert(ACK_PACKET@ =~= seq![0xdddf5d7fu32, 0x25555555u32]);
}

proof fn lemma_field_bytes(addr: u8, ep: u8, frame: u16, field: u16, crc5: u8)
    requires
        field < 0x800,
        crc5 < 32,
    ensures
        ((field & 0xff) as u8) + 256 * ((((field >> 8) & 0x07) as u8 | crc5 << 3) % 8) == field,
        (((field >> 8) & 0x07) as u8 | crc5 << 3) / 8 == crc5,
        token_field(addr, ep) < 0x800,
        token_field(addr, ep) % 128 == addr % 128,
        token_field(addr, ep) / 128 == ep % 16,
        frame & 0x7ff == frame % 0x800,
{
    let lo = (field & 0xff) as u8;
    let hi = ((field >> 8) & 0x07) as u8 | crc5 << 3;
    let t = token_field(addr, ep);
    assert(lo as u16 + 256 * ((hi % 8) as u16) == field && hi / 8 == crc5 && t < 0x800 && t % 128 == (addr % 128)
        as u16 && t / 128 == (ep % 16) as u16 && frame & 0x7ff == frame % 0x800) by (bit_vector)
        requires
            field < 0x800,
            crc5 < 32,
            lo == (field & 0xff) as u8,
            hi == ((field >> 8) & 0x07) as u8 | crc5 << 3,
            t == ((ep & 0x0f) as u16) << 7 | (addr & 0x7f) as u16,
    ;
}

/// Whether received bytes are a packet of a PID and an 11-bit field: SYNC, the PID, and
/// sixteen bits whose low eleven are the field and whose top five check it.
pub open spec fn carries_field(bytes: Seq<u8>, pid: u8, field: int) -> bool {
    &&& bytes.len() == 4
    &&& bytes[0] == 0x80
    &&& bytes[1] == pid
    &&& bytes[2] + 256 * (bytes[3] % 8) == field
    &&& crc::crc5_register(0x1f, crc::field_bits(field as u16) + crc::crc5_bits(bytes[3] / 8)) == 0x06
}

/// What a receiver decodes from the words of a token carries its PID, and a field whose
/// low seven bits are the device address and whose next four are the endpoint, followed
/// by the field's CRC5.
pub proof fn law_token_reaches_its_endpoint(pid: u8, addr: u8, ep: u8)
    ensures
        carries_field(
            line_code::line_decode(line_code::packet_words(token_packet(pid, addr, ep))),
            pid,
            (addr % 128) + 128 * (ep % 16),
        ),
{
    let field = token_field(addr, ep);
    let pkt = token_packet(pid, addr, ep);
    line_code::law_line_round_trip(pkt);
    crc::law_crc5_residue(field, 0);
    let c = crc::crc5_spec(field);
    crc::law_crc5_residue(field, c);
    lemma_field_bytes(addr, ep, 0, 0, 0);
    lemma_field_bytes(addr, ep, 0, field, c);
}

/// Bytes carry one field only.
proof fn lemma_one_field(bytes: Seq<u8>, pid1: u8, addr1: u8, ep1: u8, pid2: u8, addr2: u8, ep2: u8)
    requires
        carries_field(bytes, pid1, (addr1 % 128) + 128 * (ep1 % 16)),
        carries_field(bytes, pid2, (addr2 % 128) + 128 * (ep2 % 16)),
    ensures
        pid1 == pid2,
        addr1 % 128 == addr2 % 128,
        ep1 % 16 == ep2 % 16,
{
}

/// Tokens that differ in PID, address or endpoint differ on the wire.
pub proof fn law_tokens_differ(pid1: u8, addr1: u8, ep1: u8, pid2: u8, addr2: u8, ep2: u8)
    requires
        line_code::packet_words(token_packet(pid1, addr1, ep1)) == line_code::packet_words(
            token_packet(pid2, addr2, ep2),
        ),
    ensures
        pid1 == pid2,
        addr1 % 128 == addr2 % 128,
        ep1 % 16 == ep2 % 16,
{
    law_token_reaches_its_endpoint(pid1, addr1, ep1);
    law_token_reaches_its_endpoint(pid2, addr2, ep2);
    lemma_one_field(
        line_code::line_decode(line_code::packet_words(token_packet(pid1, addr1, ep1))),
        pid1,
        addr1,
        ep1,
        pid2,
        addr2,
        ep2,
    );
}

/// What a receiver decodes from the words of an SOF carries the low eleven bits of the
/// frame number, followed by their CRC5.
pub proof fn law_sof_carries_frame_number(frame: u16)
    ensures
        carries_field(
            line_code::line_decode(line_code::packet_words(sof_packet(frame))),
            0xA5,
            frame as int % 2048,
        ),
{
    let field = frame & 0x7ff;
    lemma_field_bytes(0, 0, frame, 0, 0);
    line_code::law_line_round_trip(sof_packet(frame));
    crc::law_crc5_residue(field, 0);
    let c = crc::crc5_spec(field);
    crc::law_crc5_residue(field, c);
    lemma_field_bytes(0, 0, frame, field, c);
}

/// What a receiver decodes from the words of a DATA packet is SYNC, the PID, the payload
/// and two bytes that leave the CRC16 residue.
pub proof fn law_data_packet_carries_payload(pid: u8, payload: Seq<u8>)
    ensures
        ({
            let bytes = line_code::line_decode(line_code::packet_words(data_packet(pid, payload)));
            let n = payload.len() as int;
            &&& bytes.len() == n + 4
            &&& bytes[0] == 0x80
            &&& bytes[1] == pid
            &&& bytes.subrange(2, n + 2) == payload
            &&& crc::crc16_running(bytes.skip(2)) == 0xB001
        }),
{
    let pkt = data_packet(pid, payload);
    let n = payload.len() as int;
    line_code::law_line_round_trip(pkt);
    crc::law_crc16_residue(payload, pkt[n + 2], pkt[n + 3]);
    assert(pkt.skip(2) =~= payload.push(pkt[n + 2]).push(pkt[n + 3]));
    assert(pkt.subrange(2, n + 2) =~= payload);
}

/// The handshake and the keep-alive that are kept ready are what they stand for.
pub proof fn law_ready_packets()
    ensures
        line_code::line_decode(ACK_PACKET@) == seq![0x80u8, 0xD2u8],
        line_code::line_decode(LS_KEEPALIVE_PACKET@) == Seq::<u8>::empty(),
{
    lemma_ack_packet();
    lemma_keepalive_packet();
    line_code::law_line_round_trip(seq![USB_SYNC, USB_PID_ACK]);
    line_code::law_line_round_trip(Seq::empty());
}

/// Buffers that just hold the packet, its symbol bytes and its words are enough to build
/// a payload of at most 64 bytes, larger ones are too, and none of them may be smaller.
pub proof fn law_smallest_data_buffers(
    pid: u8,
    payload: Seq<u8>,
    packet: nat,
    scratch: nat,
    words: nat,
)
    ensures
        ({
            let raw = data_packet(pid, payload);
            let fits = payload.len() <= 64 && raw.len() <= packet && line_code::encoded_bytes(raw).len()
                <= scratch && line_code::packet_words(raw).len() <= words;
            data_fits(pid, payload, packet, scratch, words) <==> fits
        }),
{
}

/// Encoding writes the encoded bytes to the beginning of the symbol buffer, as far as there
/// is room, and changes nothing behind them nor the buffer's size.
pub proof fn law_scratch_behind_encoding(before: Seq<u8>, pkt: Seq<u8>, i: int)
    requires
        0 <= i < before.len(),
    ensures
        ({
            let encoded = line_code::encoded_bytes(pkt);
            let after = scratch_after(before, pkt);
            &&& after.len() == before.len()
            &&& i < encoded.len() ==> after[i] == encoded[i]
            &&& i >= encoded.len() ==> after[i] == before[i]
        }),
{
}

} // verus!
