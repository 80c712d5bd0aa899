//! Receive side: configuration of the RX state machines and the capture of one
//! packet.
use crate::chip;
use crate::chip::pio_local_pin;
use crate::crc;
use crate::crc::{crc16_update, USB_CRC16_RESIDUE};
use crate::encoding;
use crate::line_code;
use crate::pid;
use crate::pid::{USB_PID_DATA0, USB_PID_DATA1};
use crate::ram;
use crate::ram::{elapsed_us, register_flag, Block, Join, Machine, PioOp, Shift, DECODER_SM, DETECTOR_SM};
use crate::rx_pio::{DECODER_PRIME_OSR, DECODER_PRIME_X, IRQ_RX_ALL, IRQ_RX_ARM, IRQ_RX_EOP, IRQ_RX_START};
use crate::types::Speed;
use vstd::prelude::*;

verus! {

/// Edge-detector state-machine clock for full speed: 8x oversample of 12 Mb/s.
pub const DET_CLOCK_HZ_FS: u32 = 96_000_000;

/// Edge-detector state-machine clock for low speed: 8x oversample of 1.5 Mb/s.
pub const DET_CLOCK_HZ_LS: u32 = 12_000_000;

/// Maximum time to wait for SOP after arming RX.
///
/// USB low-/full-speed device turnaround is bounded in bit times (USB 2.0
/// §7.1.18.1). This window is intentionally wider than the nominal turnaround to
/// absorb software arm latency and slightly marginal devices.
pub const RX_SOP_TIMEOUT_US: u32 = 8;

/// Maximum idle gap between decoded bytes once a packet has started.
///
/// A full-speed byte is about 0.67 µs on the wire before bit-stuffing; this
/// timeout gives the PIO decoder/FIFO drain path slack while still terminating
/// malformed packets promptly.
pub const RX_DRAIN_TIMEOUT_US: u32 = 7;

/// What a receive state machine is configured with.
#[derive(Debug, Clone, Copy, PartialEq, Eq, Structural)]
pub struct RxMachine {
    /// Its clock; the system clock if there is none.
    pub clock_hz: Option<u32>,
    /// Its FIFOs.
    pub fifo_join: Join,
    /// Its input shift register.
    pub shift_in: Shift,
    /// Pin that it samples.
    pub in_base: u8,
    /// Pin on which it jumps.
    pub jmp_pin: u8,
}

/// What the receive state machines are configured with for one speed.
///
/// Both are stopped while their pin selectors and clock dividers change, and then set
/// running.
#[derive(Debug, Clone, Copy, PartialEq, Eq)]
pub struct RxSetup {
    /// Stops both state machines.
    pub stop: [PioOp; 2],
    /// Edge detector.
    pub detector: RxMachine,
    /// Decoder, which runs from the PIO clock but only advances on decoder IRQs.
    pub decoder: RxMachine,
    /// Primes the decoder and starts both state machines.
    pub run: [PioOp; 4],
}

/// The edge detector at a speed: it samples the line that is high in state J and jumps
/// on the other one.
pub open spec fn detector_setup(dp: u8, dm: u8, speed: Speed) -> RxMachine {
    RxMachine {
        clock_hz: Some(
            if speed is Low {
                DET_CLOCK_HZ_LS
            } else {
                DET_CLOCK_HZ_FS
            },
        ),
        fifo_join: Join::Duplex,
        shift_in: Shift { threshold: 8, left: true, auto_fill: false },
        in_base: if speed is Low {
            dm
        } else {
            dp
        },
        jmp_pin: if speed is Low {
            dp
        } else {
            dm
        },
    }
}

/// The decoder at a speed: it follows the line that is high in state J, and pushes
/// every eight bits that it has shifted in.
pub open spec fn decoder_setup(dp: u8, dm: u8, speed: Speed) -> RxMachine {
    let pin = if speed is Low {
        dm
    } else {
        dp
    };
    RxMachine {
        clock_hz: None,
        fifo_join: Join::RxOnly,
        shift_in: Shift { threshold: 8, left: false, auto_fill: true },
        in_base: pin,
        jmp_pin: pin,
    }
}

/// Whether a setup is the one for a pin pair and a speed.
pub open spec fn is_rx_setup(setup: RxSetup, dp: u8, dm: u8, speed: Speed) -> bool {
    &&& setup.stop@ == seq![PioOp::Disable { sm: DETECTOR_SM }, PioOp::Disable { sm: DECODER_SM }]
    &&& setup.detector == detector_setup(dp, dm, speed)
    &&& setup.decoder == decoder_setup(dp, dm, speed)
    &&& setup.run@ == seq![
        PioOp::Exec { sm: DECODER_SM, instr: DECODER_PRIME_OSR },
        PioOp::Exec { sm: DECODER_SM, instr: DECODER_PRIME_X },
        PioOp::Enable { sm: DETECTOR_SM },
        PioOp::Enable { sm: DECODER_SM },
    ]
}

/// Receive-side state: edge detector on SM1 and NRZI decoder on SM2.
pub struct RxDriver {
    /// Absolute PIO instruction address of the edge detector's EOP wait loop.
    det_jmp_eop: u16,
    /// Absolute PIO instruction address of the decoder's `start` label.
    dec_jmp_start: u16,
    /// GPIO_BASE-relative pin number for D+.
    dp_pin: u8,
    /// GPIO_BASE-relative pin number for D-.
    dm_pin: u8,
}

impl RxDriver {
    /// Where the edge detector is loaded; an unconditional jump to that address
    /// has the same encoding.
    pub closed spec fn detector_origin(&self) -> u16 {
        self.det_jmp_eop
    }

    /// Where the decoder is loaded.
    pub closed spec fn decoder_origin(&self) -> u16 {
        self.dec_jmp_start
    }

    /// PIO-local pin of D+.
    pub closed spec fn dp(&self) -> u8 {
        self.dp_pin
    }

    /// PIO-local pin of D-.
    pub closed spec fn dm(&self) -> u8 {
        self.dm_pin
    }

    /// Set the driver up for a pin pair and the addresses of the loaded programs.
    pub fn init(
        edge_origin: u8,
        decoder_origin: u8,
        dp_pin: u8,
        dm_pin: u8,
        gpio_high_window: bool,
    ) -> (r: RxDriver)
        requires
            gpio_high_window ==> chip::in_high_window(dp_pin, dm_pin),
        ensures
            r.detector_origin() == edge_origin,
            r.decoder_origin() == decoder_origin,
            r.dp() == chip::local_pin(dp_pin, gpio_high_window),
            r.dm() == chip::local_pin(dm_pin, gpio_high_window),
    {
        RxDriver {
            det_jmp_eop: edge_origin as u16,
            dec_jmp_start: decoder_origin as u16,
            dp_pin: pio_local_pin(dp_pin, gpio_high_window),
            dm_pin: pio_local_pin(dm_pin, gpio_high_window),
        }
    }

    /// Repoint RX sampling for full-speed or direct-root low-speed signalling.
    ///
    /// Low speed uses D- as logical J, so both the edge detector and decoder swap
    /// which physical line they sample.
    pub fn set_speed(&self, speed: Speed) -> (setup: RxSetup)
        ensures
            is_rx_setup(setup, self.dp(), self.dm(), speed),
    {
        let low = match speed {
            Speed::Low => true,
            _ => false,
        };
        // FS: in_pin = D+, jmp_pin = D-. LS mirrors the pair.
        let (det_in, det_jmp): (u8, u8) = if low {
            (self.dm_pin, self.dp_pin)
        } else {
            (self.dp_pin, self.dm_pin)
        };
        let dec_pin: u8 = if low {
            self.dm_pin
        } else {
            self.dp_pin
        };
        let detector = RxMachine {
            clock_hz: Some(
                if low {
                    DET_CLOCK_HZ_LS
                } else {
                    DET_CLOCK_HZ_FS
                },
            ),
            fifo_join: Join::Duplex,
            shift_in: Shift { threshold: 8, left: true, auto_fill: false },
            in_base: det_in,
            jmp_pin: det_jmp,
        };
        let decoder = RxMachine {
            clock_hz: None,
            fifo_join: Join::RxOnly,
            shift_in: Shift { threshold: 8, left: false, auto_fill: true },
            in_base: dec_pin,
            jmp_pin: dec_pin,
        };
        let stop = [PioOp::Disable { sm: DETECTOR_SM }, PioOp::Disable { sm: DECODER_SM }];
        let run = [
            PioOp::Exec { sm: DECODER_SM, instr: DECODER_PRIME_OSR },
            PioOp::Exec { sm: DECODER_SM, instr: DECODER_PRIME_X },
            PioOp::Enable { sm: DETECTOR_SM },
            PioOp::Enable { sm: DECODER_SM },
        ];
        assert(stop@ =~= seq![PioOp::Disable { sm: DETECTOR_SM }, PioOp::Disable { sm: DECODER_SM }]);
        assert(run@ =~= seq![
            PioOp::Exec { sm: DECODER_SM, instr: DECODER_PRIME_OSR },
            PioOp::Exec { sm: DECODER_SM, instr: DECODER_PRIME_X },
            PioOp::Enable { sm: DETECTOR_SM },
            PioOp::Enable { sm: DECODER_SM },
        ]);
        RxSetup { stop, detector, decoder, run }
    }

    /// Arm both RX state machines so the next device packet can be captured.
    ///
    /// Called from RAM-resident transaction paths before transmitting an IN token
    /// or OUT/SETUP packet whose handshake must be caught.
    pub fn prepare_for_receive(&self) -> (ops: [PioOp; 11])
        ensures
            ops@ == arm_ops(self.detector_origin(), self.decoder_origin()),
    {
        let ops = [
            PioOp::Disable { sm: DETECTOR_SM },
            PioOp::Restart { sm: DETECTOR_SM },
            PioOp::Exec { sm: DETECTOR_SM, instr: self.det_jmp_eop },
            PioOp::Enable { sm: DETECTOR_SM },
            PioOp::Disable { sm: DECODER_SM },
            PioOp::ClearFifos { sm: DECODER_SM },
            PioOp::Restart { sm: DECODER_SM },
            PioOp::Exec { sm: DECODER_SM, instr: self.dec_jmp_start },
            PioOp::Exec { sm: DECODER_SM, instr: DECODER_PRIME_X },
            PioOp::ClearIrq { flags: IRQ_RX_ARM },
            PioOp::Enable { sm: DECODER_SM },
        ];
        assert(ops@ =~= arm_ops(self.detector_origin(), self.decoder_origin()));
        ops
    }

    /// Clear stale RX IRQ flags after the host token is on the wire.
    pub fn start_receive(&self) -> (op: PioOp)
        ensures
            op == (PioOp::ClearIrq { flags: IRQ_RX_ALL }),
    {
        PioOp::ClearIrq { flags: IRQ_RX_ALL }
    }
}

/// Arming the receiver: both state machines restarted at their programs' start,
/// the decoder with empty FIFOs and its line state primed.
pub open spec fn arm_ops(detector_origin: u16, decoder_origin: u16) -> Seq<PioOp> {
    seq![
        PioOp::Disable { sm: DETECTOR_SM },
        PioOp::Restart { sm: DETECTOR_SM },
        PioOp::Exec { sm: DETECTOR_SM, instr: detector_origin },
        PioOp::Enable { sm: DETECTOR_SM },
        PioOp::Disable { sm: DECODER_SM },
        PioOp::ClearFifos { sm: DECODER_SM },
        PioOp::Restart { sm: DECODER_SM },
        PioOp::Exec { sm: DECODER_SM, instr: decoder_origin },
        PioOp::Exec { sm: DECODER_SM, instr: DECODER_PRIME_X },
        PioOp::ClearIrq { flags: IRQ_RX_ARM },
        PioOp::Enable { sm: DECODER_SM },
    ]
}

/// Result classification for one receive attempt.
#[derive(Debug, Clone, Copy, Eq, PartialEq, Structural)]
pub enum RxPacketStatus {
    /// No packet start was observed before [`RX_SOP_TIMEOUT_US`].
    NoReply,
    /// A packet was observed but was not a valid DATA0/DATA1 packet with good CRC16.
    Invalid,
    /// More decoded bytes arrived than the caller's output buffer could hold.
    Overflow,
    /// A DATA0/DATA1 packet with valid CRC16 was received.
    ValidData,
}

/// Where the wait for a packet start stands.
#[derive(Debug, Clone, Copy, Eq, PartialEq, Structural)]
pub enum StartWait {
    /// Neither a start nor the end of the window.
    Waiting,
    /// A packet has started.
    Started,
    /// The window is over; the attempt ends with [`RxPacketStatus::NoReply`].
    NoReply,
}

/// What one look at the IRQ flags shows while waiting for a packet start.
pub open spec fn start_seen(since: u32, now: u32, irq: u8) -> StartWait {
    if ram::elapsed(since, now) >= RX_SOP_TIMEOUT_US {
        StartWait::NoReply
    } else if ram::field_bit(irq, IRQ_RX_START as int) {
        StartWait::Started
    } else {
        StartWait::Waiting
    }
}

/// Judge one look at the IRQ flags while waiting for a packet start.
///
/// `since` is when the wait began and `now` the time before the flags were read.
pub fn await_start(since: u32, now: u32, irq: u8) -> (r: StartWait)
    ensures
        r == start_seen(since, now, irq),
{
    if elapsed_us(since, now) < RX_SOP_TIMEOUT_US {
        if register_flag(irq, IRQ_RX_START) {
            StartWait::Started
        } else {
            StartWait::Waiting
        }
    } else {
        StartWait::NoReply
    }
}

/// What the receive loop finds when it looks at the hardware.
#[derive(Debug, Clone, Copy, Eq, PartialEq, Structural)]
pub enum RxEvent {
    /// The decoder's FIFO held a word; `now` is the time after taking it.
    Word { word: u32, now: u32 },
    /// The FIFO was empty; these IRQ flags were up at the time `now`.
    Idle { irq: u8, now: u32 },
}

/// The capture of one packet into a buffer of `N` bytes.
pub struct Receiver<const N: usize> {
    out: [u8; N],
    idx: usize,
    overflowed: bool,
    /// Running USB CRC16 remainder over what follows SYNC and PID (no final XOR).
    crc: u16,
    /// When the last byte came.
    last_byte: u32,
    bytes: Ghost<Seq<u8>>,
}

/// What of a packet the CRC16 covers, its own two bytes included.
pub open spec fn after_pid(bytes: Seq<u8>) -> Seq<u8> {
    if bytes.len() <= 2 {
        Seq::empty()
    } else {
        bytes.skip(2)
    }
}

/// Whether received bytes are `[SYNC, DATA0 or DATA1, payload..., CRC16]` with the
/// payload's CRC16 at the end. The SYNC byte is not looked at.
pub open spec fn is_data_packet(bytes: Seq<u8>) -> bool {
    let n = bytes.len() as int;
    &&& n >= 4
    &&& pid::is_data_pid(bytes[1])
    &&& bytes[n - 2] == crc::crc_lo(crc::crc16_spec(bytes.subrange(2, n - 2)))
    &&& bytes[n - 1] == crc::crc_hi(crc::crc16_spec(bytes.subrange(2, n - 2)))
}

/// How a packet counts that ends with EOP, in a buffer of `capacity` bytes.
pub open spec fn eop_status(bytes: Seq<u8>, capacity: nat) -> RxPacketStatus {
    if bytes.len() > capacity {
        RxPacketStatus::Overflow
    } else if is_data_packet(bytes) {
        RxPacketStatus::ValidData
    } else {
        RxPacketStatus::Invalid
    }
}

/// How a packet counts that stops without EOP.
pub open spec fn drained_status(bytes: Seq<u8>, capacity: nat) -> RxPacketStatus {
    if bytes.len() > capacity {
        RxPacketStatus::Overflow
    } else {
        RxPacketStatus::Invalid
    }
}

/// How many of the received bytes a buffer holds.
pub open spec fn captured_len(bytes: Seq<u8>, capacity: nat) -> nat {
    if bytes.len() <= capacity {
        bytes.len()
    } else {
        capacity
    }
}

/// The byte that the decoder has shifted into the top of a FIFO word.
pub open spec fn word_byte(word: u32) -> u8 {
    (word >> 24) as u8
}

/// A buffer behind one more byte, `n` having come before it: it is stored if there is room.
pub open spec fn stored(contents: Seq<u8>, n: nat, byte: u8) -> Seq<u8> {
    if n < contents.len() {
        contents.update(n as int, byte)
    } else {
        contents
    }
}

/// How a capture ends when the FIFO is empty: with EOP, or when no byte has come for
/// too long; with the number of bytes in the buffer and their classification.
pub open spec fn capture_end(
    bytes: Seq<u8>,
    capacity: nat,
    last_byte: u32,
    irq: u8,
    now: u32,
) -> Option<(usize, RxPacketStatus)> {
    if ram::field_bit(irq, IRQ_RX_EOP as int) {
        Some((captured_len(bytes, capacity) as usize, eop_status(bytes, capacity)))
    } else if ram::elapsed(last_byte, now) > RX_DRAIN_TIMEOUT_US {
        Some((captured_len(bytes, capacity) as usize, drained_status(bytes, capacity)))
    } else {
        None
    }
}

impl<const N: usize> Receiver<N> {
    /// The bytes that have come, whether they fit the buffer or not.
    pub closed spec fn received(&self) -> Seq<u8> {
        self.bytes@
    }

    /// When the last byte came, or the capture began.
    pub closed spec fn last_byte_at(&self) -> u32 {
        self.last_byte
    }

    /// The buffer's contents.
    pub closed spec fn contents(&self) -> Seq<u8> {
        self.out@
    }

    /// The capture keeps what has come: the buffer its beginning, the register its
    /// CRC16.
    pub closed spec fn wf(&self) -> bool {
        &&& self.idx == self.bytes@.len()
        &&& self.overflowed == (self.bytes@.len() > N)
        &&& self.crc == crc::crc16_running(after_pid(self.bytes@))
        &&& self.out@.len() == N
        &&& forall|i: int|
            0 <= i < captured_len(self.bytes@, N as nat) ==> self.out@[i] == self.bytes@[i]
    }

    /// Begin a capture into `out` when a packet has started.
    pub fn new(out: [u8; N], now: u32) -> (r: Receiver<N>)
        ensures
            r.wf(),
            r.received() == Seq::<u8>::empty(),
            r.last_byte_at() == now,
            r.contents() == out@,
    {
        proof {
            assert(crate::bits::bits_of(Seq::<u8>::empty()) =~= Seq::<bool>::empty());
        }
        Receiver { out, idx: 0, overflowed: false, crc: 0xffff, last_byte: now, bytes: Ghost(Seq::empty()) }
    }

    /// The buffer. It begins with the received bytes, as many as it holds.
    pub fn buffer(&self) -> (out: &[u8; N])
        requires
            self.wf(),
        ensures
            out@ == self.contents(),
            forall|i: int|
                0 <= i < captured_len(self.received(), N as nat) ==> out@[i] == self.received()[i],
    {
        &self.out
    }

    /// Take in what the receive loop found; `Some` ends the capture with the number
    /// of bytes in the buffer and their classification.
    ///
    /// Decoded bytes stand in the buffer as `[SYNC, PID, payload..., CRC16]`.
    /// The CRC16 is updated as bytes arrive; when EOP is observed, a valid
    /// DATA0/DATA1 packet can be ACKed immediately by the caller. Overflowed
    /// packets are never reported as valid, preventing ACK of truncated DATA.
    pub fn receive(&mut self, event: RxEvent) -> (r: Option<(usize, RxPacketStatus)>)
        requires
            old(self).wf(),
            event is Word ==> old(self).received().len() < usize::MAX,
        ensures
            final(self).wf(),
            match event {
                RxEvent::Word { word, now } => {
                    &&& r is None
                    &&& final(self).received() == old(self).received().push((word >> 24) as u8)
                    &&& final(self).received() == old(self).received().push(word_byte(word))
                    &&& final(self).last_byte_at() == now
                    &&& final(self).contents() == stored(
                        old(self).contents(),
                        old(self).received().len(),
                        word_byte(word),
                    )
                    &&& final(self).contents() == (if old(self).received().len() < N {
                        old(self).contents().update(
                            old(self).received().len() as int,
                            (word >> 24) as u8,
                        )
                    } else {
                        old(self).contents()
                    })
                },
                RxEvent::Idle { irq, now } => {
                    &&& *final(self) == *old(self)
                    &&& r == capture_end(old(self).received(), N as nat, old(self).last_byte_at(), irq, now)
                },
            },
    {
        match event {
            RxEvent::Word { word, now } => {
                let b = (word >> 24) as u8;
                let ghost before = self.bytes@;
                if self.idx < N {
                    self.out[self.idx] = b;
                } else {
                    self.overflowed = true;
                }
                if self.idx >= 2 {
                    proof {
                        crc::lemma_crc16_push(0xffff, after_pid(before), b);
                        assert(after_pid(before).push(b) =~= after_pid(before.push(b)));
                    }
                    self.crc = crc16_update(self.crc, b);
                }
                self.idx += 1;
                self.last_byte = now;
                self.bytes = Ghost(before.push(b));
                None
            },
            RxEvent::Idle { irq, now } => {
                let n = if self.idx <= N {
                    self.idx
                } else {
                    N
                };
                if register_flag(irq, IRQ_RX_EOP) {
                    if self.overflowed {
                        return Some((n, RxPacketStatus::Overflow));
                    }
                    // DATA0/DATA1 are the only device-emitted PIDs the host ACKs on LS/FS
                    // bulk/interrupt/control-IN. Handshakes (ACK/NAK/STALL) are terminal.
                    // Iso IN also uses DATA0/1 but must not be handshaken: it needs a
                    // receive path without ACK.
                    let valid_data = n >= 4 && self.crc == USB_CRC16_RESIDUE && (self.out[1]
                        == USB_PID_DATA0 || self.out[1] == USB_PID_DATA1);
                    proof {
                        if n >= 4 {
                            lemma_residue_means_crc(self.bytes@);
                        }
                    }
                    let status = if valid_data {
                        RxPacketStatus::ValidData
                    } else {
                        RxPacketStatus::Invalid
                    };
                    Some((n, status))
                } else if elapsed_us(self.last_byte, now) > RX_DRAIN_TIMEOUT_US {
                    let status = if self.overflowed {
                        RxPacketStatus::Overflow
                    } else {
                        RxPacketStatus::Invalid
                    };
                    Some((n, status))
                } else {
                    None
                }
            },
        }
    }
}

proof fn lemma_residue_means_crc(bytes: Seq<u8>)
    requires
        bytes.len() >= 4,
    ensures
        crc::crc16_running(after_pid(bytes)) == USB_CRC16_RESIDUE <==> {
            let n = bytes.len() as int;
            let crc = crc::crc16_spec(bytes.subrange(2, n - 2));
            bytes[n - 2] == crc::crc_lo(crc) && bytes[n - 1] == crc::crc_hi(crc)
        },
{
    let n = bytes.len() as int;
    let payload = bytes.subrange(2, n - 2);
    crc::law_crc16_residue(payload, bytes[n - 2], bytes[n - 1]);
    assert(payload.push(bytes[n - 2]).push(bytes[n - 1]) =~= after_pid(bytes));
}

/// Received bytes count as valid DATA exactly when, but for the SYNC byte, they are
/// the packet that a sender builds for some DATA PID and payload.
pub proof fn law_valid_data_is_a_data_packet(bytes: Seq<u8>)
    requires
        bytes.len() >= 4,
    ensures
        is_data_packet(bytes) <==> pid::is_data_pid(bytes[1]) && bytes.skip(1) == encoding::data_packet(
            bytes[1],
            bytes.subrange(2, bytes.len() - 2),
        ).skip(1),
{
    let n = bytes.len() as int;
    let payload = bytes.subrange(2, n - 2);
    let sent = encoding::data_packet(bytes[1], payload);
    assert(sent.len() == n);
    if is_data_packet(bytes) {
        assert(bytes.skip(1) =~= sent.skip(1));
    } else if pid::is_data_pid(bytes[1]) && bytes.skip(1) == sent.skip(1) {
        assert(bytes[n - 2] == bytes.skip(1)[n - 3]);
        assert(bytes[n - 1] == bytes.skip(1)[n - 2]);
        assert(false);
    }
}

/// A DATA packet that goes out through the player and comes in over the line is
/// received as valid DATA by every buffer that holds it.
pub proof fn law_sent_data_is_valid(pid: u8, payload: Seq<u8>, capacity: nat)
    requires
        pid::is_data_pid(pid),
        payload.len() + 4 <= capacity,
    ensures
        eop_status(
            line_code::line_decode(line_code::packet_words(encoding::data_packet(pid, payload))),
            capacity,
        ) is ValidData,
{
    let pkt = encoding::data_packet(pid, payload);
    line_code::law_line_round_trip(pkt);
    assert(pkt.subrange(2, pkt.len() - 2) =~= payload);
}

/// A packet start counts only within eight microseconds, in which the wait goes on
/// until it shows; behind them there is no reply, whatever the flags say.
pub proof fn law_start_window(since: u32, now: u32, irq: u8)
    ensures
        start_seen(since, now, irq) is NoReply <==> ram::elapsed(since, now) >= 8,
        start_seen(since, now, irq) is Started <==> ram::elapsed(since, now) < 8 && ram::field_bit(irq, 3),
{
}

/// A capture goes on exactly as long as there is no EOP and the last byte came at most
/// seven microseconds ago.
pub proof fn law_capture_goes_on(bytes: Seq<u8>, capacity: nat, last_byte: u32, irq: u8, now: u32)
    ensures
        capture_end(bytes, capacity, last_byte, irq, now) is None <==> !ram::field_bit(irq, 2)
            && ram::elapsed(last_byte, now) <= 7,
{
}

/// What a capture ends with. The buffer holds the received bytes as far as it reaches.
/// It overflows exactly when more bytes came, however it ended. A packet that fits is
/// valid exactly when it ended with EOP and is a DATA packet.
pub proof fn law_capture_classification(
    bytes: Seq<u8>,
    capacity: nat,
    last_byte: u32,
    irq: u8,
    now: u32,
)
    requires
        capacity <= usize::MAX,
        capture_end(bytes, capacity, last_byte, irq, now) is Some,
    ensures
        ({
            let (n, status) = capture_end(bytes, capacity, last_byte, irq, now)->0;
            &&& n <= bytes.len() && n <= capacity && (n == bytes.len() || n == capacity)
            &&& status is Overflow <==> bytes.len() > capacity
            &&& status is ValidData <==> bytes.len() <= capacity && ram::field_bit(irq, 2)
                && is_data_packet(bytes)
            &&& !(status is NoReply)
        }),
{
}

/// A DATA packet carries SYNC, PID and CRC16 at least, and nothing but DATA0 and DATA1
/// counts as one: in all it leaves the CRC16 residue behind its PID.
pub proof fn law_data_packet_is_intact(bytes: Seq<u8>)
    ensures
        is_data_packet(bytes) <==> {
            &&& bytes.len() >= 4
            &&& bytes[1] == 0xC3 || bytes[1] == 0x4B
            &&& crc::crc16_running(bytes.skip(2)) == 0xB001
        },
{
    if bytes.len() >= 4 {
        lemma_residue_means_crc(bytes);
        assert(after_pid(bytes) =~= bytes.skip(2));
    }
}

/// A receive state machine that runs from its program's start.
pub open spec fn rearmed(executed: Seq<u16>, before: Machine) -> Machine {
    Machine { running: true, executed, restarted: true, ..before }
}

/// Arming restarts both receive state machines at their programs and lets them run, the
/// decoder with empty FIFOs and primed; it puts the packet-start and trigger flags down
/// before the decoder runs, and touches nothing else.
pub proof fn law_arming_effect(block: Block, detector_origin: u16, decoder_origin: u16)
    requires
        block.wf(),
    ensures
        ({
            let ops = arm_ops(detector_origin, decoder_origin);
            let after = block.perform(ops);
            &&& after.machines[1] == rearmed(seq![detector_origin], block.machines[1])
            &&& after.machines[2] == (Machine {
                queued: Seq::empty(),
                emptied: true,
                ..rearmed(seq![decoder_origin, DECODER_PRIME_X], block.machines[2])
            })
            &&& after.machines[0] == block.machines[0] && after.machines[3] == block.machines[3]
            &&& after.raised == block.raised.remove(3).remove(4)
            &&& !block.perform(ops.drop_last()).machines[2].running
            &&& block.perform(ops.drop_last()).raised == after.raised
        }),
{
    let ops = arm_ops(detector_origin, decoder_origin);
    reveal_with_fuel(Block::perform, 12);
    let e: Seq<PioOp> = Seq::empty();
    assert(ops.take(0) =~= e);
    assert(ops.take(1).drop_last() =~= ops.take(0));
    assert(ops.take(2).drop_last() =~= ops.take(1));
    assert(ops.take(3).drop_last() =~= ops.take(2));
    assert(ops.take(4).drop_last() =~= ops.take(3));
    assert(ops.take(5).drop_last() =~= ops.take(4));
    assert(ops.take(6).drop_last() =~= ops.take(5));
    assert(ops.take(7).drop_last() =~= ops.take(6));
    assert(ops.take(8).drop_last() =~= ops.take(7));
    assert(ops.take(9).drop_last() =~= ops.take(8));
    assert(ops.take(10).drop_last() =~= ops.take(9));
    assert(ops.drop_last() =~= ops.take(10));
    assert(Seq::<u16>::empty().push(detector_origin) =~= seq![detector_origin]);
    assert(Seq::<u16>::empty().push(decoder_origin).push(DECODER_PRIME_X) =~= seq![
        decoder_origin,
        DECODER_PRIME_X,
    ]);
    ram::lemma_flag_masks();
    assert(block.perform(ops.take(10)).raised =~= block.raised.remove(3).remove(4));
}

/// Putting the receive flags down leaves every other flag as it was.
pub proof fn law_start_receive_effect(block: Block)
    ensures
        ({
            let after = block.access(PioOp::ClearIrq { flags: IRQ_RX_ALL });
            &&& after.machines == block.machines
            &&& after.raised == block.raised.remove(2).remove(3).remove(4)
        }),
{
    ram::lemma_flag_masks();
    assert(block.access(PioOp::ClearIrq { flags: IRQ_RX_ALL }).raised =~= block.raised.remove(2).remove(
        3,
    ).remove(4));
}

/// The detector oversamples the line eightfold. The decoder pushes each byte by itself
/// once it has shifted its eight bits in from the top, so that the first ends up lowest,
/// and has its whole FIFO for that; the detector pushes nothing.
pub proof fn law_receive_configuration(setup: RxSetup, dp: u8, dm: u8, speed: Speed)
    requires
        is_rx_setup(setup, dp, dm, speed),
    ensures
        setup.detector.clock_hz == Some(
            if speed is Low {
                12_000_000u32
            } else {
                96_000_000u32
            },
        ),
        setup.decoder.clock_hz is None,
        setup.decoder.shift_in.auto_fill && setup.decoder.shift_in.threshold == 8
            && !setup.decoder.shift_in.left,
        setup.decoder.fifo_join is RxOnly,
        !setup.detector.shift_in.auto_fill && setup.detector.shift_in.left,
        setup.detector.shift_in.threshold == 8 && setup.detector.fifo_join is Duplex,
        setup.decoder.in_base == setup.detector.in_base && setup.decoder.jmp_pin == setup.detector.in_base,
        setup.detector.in_base == dp && setup.detector.jmp_pin == dm || setup.detector.in_base == dm
            && setup.detector.jmp_pin == dp,
        setup.detector.in_base == (if speed is Low {
            dm
        } else {
            dp
        }),
{
}

/// Configuring the receive side stops both state machines first; behind it both run, the
/// decoder primed with its constant of ones and its line state.
pub proof fn law_receive_restart(block: Block, setup: RxSetup, dp: u8, dm: u8, speed: Speed)
    requires
        block.wf(),
        is_rx_setup(setup, dp, dm, speed),
    ensures
        ({
            let stopped = block.perform(setup.stop@);
            let after = stopped.perform(setup.run@);
            &&& !stopped.machines[1].running && !stopped.machines[2].running
            &&& stopped.machines[1].executed == block.machines[1].executed
            &&& stopped.machines[2].executed == block.machines[2].executed
            &&& after.machines[1] == (Machine { running: true, ..block.machines[1] })
            &&& after.machines[2] == (Machine {
                running: true,
                executed: block.machines[2].executed.push(DECODER_PRIME_OSR).push(DECODER_PRIME_X),
                ..block.machines[2]
            })
            &&& after.machines[0] == block.machines[0] && after.machines[3] == block.machines[3]
            &&& after.raised == block.raised
            &&& setup.run@.len() == 4 && setup.run@[2] is Enable && setup.run@[3] is Enable
        }),
{
    reveal_with_fuel(Block::perform, 5);
    let stop = setup.stop@;
    let run = setup.run@;
    assert(stop.drop_last().drop_last() =~= Seq::empty());
    assert(run.drop_last().drop_last().drop_last().drop_last() =~= Seq::empty());
    assert(block.perform(stop).perform(run).machines[1] == (Machine { running: true, ..block.machines[1] }));
}

/// The decoder's byte is the top one of the FIFO word.
pub proof fn law_word_byte(word: u32)
    ensures
        word_byte(word) == word as int / 0x100_0000,
{
    assert((word >> 24) as u8 == word / 0x100_0000) by (bit_vector);
}

/// A byte goes to the place behind those that came before it, changes no other place, and
/// never the size of the buffer.
pub proof fn law_bytes_are_stored_in_order(contents: Seq<u8>, n: nat, byte: u8, i: int)
    ensures
        stored(contents, n, byte).len() == contents.len(),
        n < contents.len() ==> stored(contents, n, byte)[n as int] == byte,
        0 <= i < contents.len() && i != n ==> stored(contents, n, byte)[i] == contents[i],
{
}

} // verus!
