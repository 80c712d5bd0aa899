//! Transmit side: configuration of the player and what sending a packet takes.
use crate::chip;
use crate::chip::pio_local_pin;
use crate::encoding;
use crate::encoding::ACK_PACKET;
use crate::line_code;
use crate::pid::{USB_PID_ACK, USB_SYNC};
use crate::pio_program::PioProgram;
use crate::ram;
use crate::ram::{elapsed_us, Block, Join, Machine, PioOp, Shift, TX_SM};
use crate::tx_pio;
use crate::tx_pio::{
    usb_tx_j_high_on_higher_program, usb_tx_j_high_on_lower_program, TX_START_INSTR_J_HIGH_ON_HIGHER,
    TX_START_INSTR_J_HIGH_ON_LOWER,
};
use crate::types::Speed;
use vstd::prelude::*;

verus! {

/// TX state-machine clock, full speed. The player spends 4 SM cycles per NRZI symbol:
/// 48 MHz / 4 = 12 MHz symbol rate = 12 Mb/s.
pub const TX_CLOCK_HZ_FS: u32 = 48_000_000;

/// TX state-machine clock, low speed. FS / 8: 1.5 Mb/s.
pub const TX_CLOCK_HZ_LS: u32 = 6_000_000;

/// TX state-machine IRQ bit raised by the EOP instruction.
pub const IRQ_TX_EOP_BIT: u8 = 1;

/// Busy-wait timeout of a transmission. Realistically, we should expect about 25µs max
/// for a full-size LS packet.
pub const TX_WAIT_TIMEOUT_US: u32 = 50;

/// TX FIFO capacity when the state machine has both FIFOs joined for TX.
pub const TX_FIFO_DEPTH: usize = 8;

/// PIO `exec` instruction: drive D+/D- as outputs.
pub const SET_PINDIRS_OUT: u16 = 0xE083;  // set pindirs, 0b11 (both outputs)

/// PIO `exec` instruction: drive SE0 (`D+ = D- = 0`).
pub const SET_PINS_SE0: u16 = 0xE000;  // set pins, 0b00     (both low = SE0)

/// PIO `exec` instruction: release D+/D- to inputs.
pub const SET_PINDIRS_IN: u16 = 0xE080;  // set pindirs, 0b00  (both inputs = release bus)

/// What the transmit state machine is configured with for one speed.
///
/// The state machine is stopped, configured, and then set running.
pub struct TxSetup {
    /// Stops the state machine.
    pub stop: PioOp,
    /// The player to put into instruction memory.
    pub program: PioProgram<5>,
    /// Clock of the state machine.
    pub clock_hz: u32,
    /// Its FIFOs.
    pub fifo_join: Join,
    /// Its output shift register.
    pub shift_out: Shift,
    /// Starts the state machine and parks it with the bus released.
    pub run: [PioOp; 2],
}

/// One step of sending a packet.
#[derive(Debug, Clone, Copy, PartialEq, Eq, Structural)]
pub enum TxStep {
    /// Access the PIO block.
    Op(PioOp),
    /// Keep interrupts away from here on.
    EnterCritical,
    /// Spin until the TX FIFO takes a word.
    AwaitSpace,
    /// Let interrupts through again.
    LeaveCritical,
    /// Wait until the packet is out and the bus released.
    AwaitDone,
}

/// What the wait for a transmitted packet is for.
#[derive(Debug, Clone, Copy, PartialEq, Eq, Structural)]
pub enum TxWait {
    /// The player's EOP flag in the IRQ register.
    Eop,
    /// The pins' output enables, which the player drops when it releases the bus.
    Release,
}

/// One step of waiting until a transmitted packet is out.
#[derive(Debug, Clone, Copy, PartialEq, Eq, Structural)]
pub enum TxWaitStep {
    /// Note the time: the timeout of the next wait counts from here.
    StartWindow,
    /// Look until [`TxDriver::wait`] says that this is over.
    Await(TxWait),
}

/// Waiting for a packet: for its EOP, then for the release of the bus, each with a
/// timeout of its own.
pub open spec fn wait_sequence() -> Seq<TxWaitStep> {
    seq![
        TxWaitStep::StartWindow,
        TxWaitStep::Await(TxWait::Eop),
        TxWaitStep::StartWindow,
        TxWaitStep::Await(TxWait::Release),
    ]
}

/// Whether a wait is over: what it is for has come, or not in time.
pub open spec fn wait_over(what: TxWait, register: u32, pin_mask: u32, since: u32, now: u32) -> bool {
    ram::elapsed(since, now) > TX_WAIT_TIMEOUT_US || match what {
        TxWait::Eop => register & 1 != 0,
        TxWait::Release => register & pin_mask == 0,
    }
}

/// Transmit-side PIO state machine and speed-dependent configuration.
///
/// SM0 is a symbol player: software supplies pre-encoded 2-bit J/K/SE0/COMP
/// symbols, and the PIO program turns them into D+/D- side-set values. Packet
/// encoding, CRC generation, NRZI, and bit-stuffing are handled by
/// [`crate::encoding`].
pub struct TxDriver {
    /// Speed-specific `exec` instruction used to jump to the player's start slot.
    tx_start_instr: u16,
    /// GPIO of D+.
    dp_pin: u8,
    /// GPIO of D-.
    dm_pin: u8,
    /// The pin mask to wait for after transmitting
    ///
    /// This is used to check if the pins are released after transmitting a frame.
    /// The mask is 1 << local_dp_pin | 1 << local_dm_pin
    /// where the pin numbers are based on the GPIO base (pin - 16 for the high bank
    /// on RP235xB).
    tx_pin_mask: u32,
}

/// Two pins in ascending order.
pub open spec fn ascending(dp: u8, dm: u8) -> (u8, u8) {
    if dp < dm {
        (dp, dm)
    } else {
        (dm, dp)
    }
}

/// The mask of two pins.
pub open spec fn pair_mask(dp: int, dm: int) -> u32 {
    (1u32 << (dp as u32)) | (1u32 << (dm as u32))
}

/// Whether the player's J state has the lower GPIO high: J is D+ high, but D- high
/// at low speed.
pub open spec fn j_high_on_lower(dp_is_lower: bool, speed: Speed) -> bool {
    dp_is_lower != (speed is Low)
}

/// The start instruction of the player for a J state.
pub open spec fn start_instr_for(j_on_lower: bool) -> u16 {
    if j_on_lower {
        TX_START_INSTR_J_HIGH_ON_LOWER
    } else {
        TX_START_INSTR_J_HIGH_ON_HIGHER
    }
}

/// The player's text for a J state.
pub open spec fn player_for(j_on_lower: bool) -> Seq<u16> {
    if j_on_lower {
        tx_pio::player_code(1, 2)
    } else {
        tx_pio::player_code(2, 1)
    }
}

/// The player's clock at a speed.
pub open spec fn tx_clock_hz(speed: Speed) -> u32 {
    if speed is Low {
        TX_CLOCK_HZ_LS
    } else {
        TX_CLOCK_HZ_FS
    }
}

/// Whether a setup is the one for a J state and a speed: the player takes symbols from
/// the most significant end of eight FIFO words, and leaves the bus released.
pub open spec fn is_tx_setup(setup: TxSetup, j_on_lower: bool, speed: Speed) -> bool {
    &&& setup.stop == PioOp::Disable { sm: TX_SM }
    &&& setup.program.code@ == player_for(j_on_lower)
    &&& tx_pio::is_player(setup.program)
    &&& setup.clock_hz == tx_clock_hz(speed)
    &&& setup.fifo_join is TxOnly
    &&& setup.shift_out == Shift { threshold: 32, left: true, auto_fill: true }
    &&& setup.run@ == seq![
        PioOp::Enable { sm: TX_SM },
        PioOp::Exec { sm: TX_SM, instr: SET_PINDIRS_IN },
    ]
}

/// Driving SE0 onto the lines.
pub open spec fn se0_ops() -> Seq<PioOp> {
    seq![
        PioOp::Disable { sm: TX_SM },
        PioOp::Exec { sm: TX_SM, instr: SET_PINDIRS_OUT },
        PioOp::Exec { sm: TX_SM, instr: SET_PINS_SE0 },
    ]
}

/// Letting the player go on from its start slot.
pub open spec fn release_ops(start_instr: u16) -> Seq<PioOp> {
    seq![PioOp::Exec { sm: TX_SM, instr: start_instr }, PioOp::Enable { sm: TX_SM }]
}

/// Loading `words` into the stopped player, ready to start.
pub open spec fn prepare_ops(start_instr: u16, words: Seq<u32>) -> Seq<PioOp> {
    seq![
        PioOp::Disable { sm: TX_SM },
        PioOp::ClearFifos { sm: TX_SM },
        PioOp::Restart { sm: TX_SM },
        PioOp::Exec { sm: TX_SM, instr: start_instr },
    ] + Seq::new(words.len(), |i: int| PioOp::Push { sm: TX_SM, word: words[i] }) + seq![
        PioOp::ClearIrq { flags: IRQ_TX_EOP_BIT },
    ]
}

/// Loading the ACK handshake and leaving the bus to the device.
pub open spec fn ack_ops(start_instr: u16) -> Seq<PioOp> {
    prepare_ops(start_instr, line_code::packet_words(seq![USB_SYNC, USB_PID_ACK])).push(
        PioOp::Exec { sm: TX_SM, instr: SET_PINDIRS_IN },
    )
}

/// How many words go into the FIFO before the player starts.
pub open spec fn initial_count(words: Seq<u32>) -> int {
    if words.len() <= TX_FIFO_DEPTH {
        words.len() as int
    } else {
        TX_FIFO_DEPTH as int
    }
}

/// Queueing words while the player runs.
pub open spec fn feed_steps(words: Seq<u32>) -> Seq<TxStep> {
    Seq::new(
        (2 * words.len()) as nat,
        |i: int|
            if i % 2 == 0 {
                TxStep::AwaitSpace
            } else {
                TxStep::Op(PioOp::Push { sm: TX_SM, word: words[i / 2] })
            },
    )
}

/// Starting the player, with the words that are left to queue.
///
/// Once SM0 starts, a long interrupt must not drain the FIFO before software has
/// queued the rest of the packet.
pub open spec fn start_steps(remaining: Seq<u32>) -> Seq<TxStep> {
    if remaining.len() == 0 {
        seq![TxStep::Op(PioOp::Enable { sm: TX_SM })]
    } else {
        seq![TxStep::EnterCritical, TxStep::Op(PioOp::Enable { sm: TX_SM })] + feed_steps(remaining)
            + seq![TxStep::LeaveCritical]
    }
}

/// Sending a packet, step by step.
pub open spec fn transmit_steps(start_instr: u16, words: Seq<u32>) -> Seq<TxStep> {
    let n = initial_count(words);
    prepare_ops(start_instr, words.take(n)).map_values(|op: PioOp| TxStep::Op(op)) + start_steps(
        words.skip(n),
    ) + seq![TxStep::AwaitDone]
}

impl TxDriver {
    /// GPIO of D+.
    pub closed spec fn dp(&self) -> u8 {
        self.dp_pin
    }

    /// GPIO of D-.
    pub closed spec fn dm(&self) -> u8 {
        self.dm_pin
    }

    /// Whether D+ is the lower of the two pins.
    pub open spec fn dp_is_lower(&self) -> bool {
        self.dp() < self.dm()
    }

    /// The instruction that takes the player to its start slot.
    pub closed spec fn start_instr(&self) -> u16 {
        self.tx_start_instr
    }

    /// The PIO-local pins of the pair, as a bit mask.
    pub closed spec fn pin_mask(&self) -> u32 {
        self.tx_pin_mask
    }

    /// Set the driver up for a pin pair, at full speed.
    pub fn init(dp_pin: u8, dm_pin: u8, gpio_high_window: bool) -> (r: TxDriver)
        requires
            gpio_high_window ==> chip::in_high_window(dp_pin, dm_pin),
            chip::local_pin(dp_pin, gpio_high_window) < 32,
            chip::local_pin(dm_pin, gpio_high_window) < 32,
        ensures
            r.dp() == dp_pin,
            r.dm() == dm_pin,
            r.start_instr() == start_instr_for(j_high_on_lower(r.dp_is_lower(), Speed::Full)),
            r.pin_mask() == (1u32 << (chip::local_pin(dp_pin, gpio_high_window) as u32)) | (1u32 << (
            chip::local_pin(dm_pin, gpio_high_window) as u32)),
            r.pin_mask() == pair_mask(
                chip::local_pin(dp_pin, gpio_high_window),
                chip::local_pin(dm_pin, gpio_high_window),
            ),
    {
        let dp_local = pio_local_pin(dp_pin, gpio_high_window) as u32;
        let dm_local = pio_local_pin(dm_pin, gpio_high_window) as u32;
        let tx_pin_mask = (1u32 << dp_local) | (1u32 << dm_local);
        let mut this = TxDriver {
            tx_start_instr: TX_START_INSTR_J_HIGH_ON_LOWER,
            dp_pin,
            dm_pin,
            tx_pin_mask,
        };
        let _ = this.set_speed(Speed::Full);
        this
    }

    /// The pins that the player drives, in ascending order: its side-set, `set` and
    /// `out` pins all begin with the first, which is bit 0 of their values.
    pub fn pin_pair(&self) -> (pair: (u8, u8))
        ensures
            pair == ascending(self.dp(), self.dm()),
            pair.0 <= pair.1,
            self.dp() != self.dm() ==> pair.0 < pair.1,
            pair == (self.dp(), self.dm()) || pair == (self.dm(), self.dp()),
    {
        if self.dp_pin < self.dm_pin {
            (self.dp_pin, self.dm_pin)
        } else {
            (self.dm_pin, self.dp_pin)
        }
    }

    /// Switch the TX player between full-speed and direct-root low-speed signalling.
    ///
    /// Low-speed uses the same physical D+/D- pin order but a different PIO program
    /// whose side-set constants encode low-speed J/K polarity. The state machine is
    /// left enabled and parked with D+/D- released as inputs.
    pub fn set_speed(&mut self, speed: Speed) -> (setup: TxSetup)
        ensures
            final(self).dp() == old(self).dp(),
            final(self).dm() == old(self).dm(),
            final(self).pin_mask() == old(self).pin_mask(),
            final(self).start_instr() == start_instr_for(
                j_high_on_lower(old(self).dp_is_lower(), speed),
            ),
            is_tx_setup(setup, j_high_on_lower(old(self).dp_is_lower(), speed), speed),
    {
        let j_on_lower = match speed {
            Speed::Low => !(self.dp_pin < self.dm_pin),
            _ => self.dp_pin < self.dm_pin,
        };
        let program = if j_on_lower {
            usb_tx_j_high_on_lower_program()
        } else {
            usb_tx_j_high_on_higher_program()
        };
        self.tx_start_instr = if j_on_lower {
            TX_START_INSTR_J_HIGH_ON_LOWER
        } else {
            TX_START_INSTR_J_HIGH_ON_HIGHER
        };
        let clock_hz = match speed {
            Speed::Low => TX_CLOCK_HZ_LS,
            _ => TX_CLOCK_HZ_FS,
        };
        let run = [PioOp::Enable { sm: TX_SM }, PioOp::Exec { sm: TX_SM, instr: SET_PINDIRS_IN }];
        assert(run@ =~= seq![
            PioOp::Enable { sm: TX_SM },
            PioOp::Exec { sm: TX_SM, instr: SET_PINDIRS_IN },
        ]);
        TxSetup {
            stop: PioOp::Disable { sm: TX_SM },
            program,
            clock_hz,
            fifo_join: Join::TxOnly,
            shift_out: Shift { threshold: 32, left: true, auto_fill: true },
            run,
        }
    }

    /// Start driving root-port reset SE0.
    ///
    /// The caller owns the reset duration. USB 2.0 §7.1.7.5 requires at least
    /// 10 ms of reset SE0 before release.
    pub fn drive_reset_se0(&self) -> (ops: [PioOp; 3])
        ensures
            ops@ == seq![
                PioOp::Disable { sm: TX_SM },
                PioOp::Exec { sm: TX_SM, instr: SET_PINDIRS_OUT },
                PioOp::Exec { sm: TX_SM, instr: SET_PINS_SE0 },
            ],
            ops@ == se0_ops(),
    {
        let ops = [
            PioOp::Disable { sm: TX_SM },
            PioOp::Exec { sm: TX_SM, instr: SET_PINDIRS_OUT },
            PioOp::Exec { sm: TX_SM, instr: SET_PINS_SE0 },
        ];
        assert(ops@ =~= seq![
            PioOp::Disable { sm: TX_SM },
            PioOp::Exec { sm: TX_SM, instr: SET_PINDIRS_OUT },
            PioOp::Exec { sm: TX_SM, instr: SET_PINS_SE0 },
        ]);
        ops
    }

    /// Release the bus after reset by driving idle J and re-enabling the TX player.
    pub fn release_reset(&self) -> (ops: [PioOp; 2])
        ensures
            ops@ == seq![
                PioOp::Exec { sm: TX_SM, instr: self.start_instr() },
                PioOp::Enable { sm: TX_SM },
            ],
            ops@ == release_ops(self.start_instr()),
    {
        let ops = [PioOp::Exec { sm: TX_SM, instr: self.tx_start_instr }, PioOp::Enable { sm: TX_SM }];
        assert(ops@ =~= seq![
            PioOp::Exec { sm: TX_SM, instr: self.start_instr() },
            PioOp::Enable { sm: TX_SM },
        ]);
        ops
    }

    /// Release D+/D- to inputs so the device or pull-up can drive the bus.
    pub fn release_bus(&self) -> (op: PioOp)
        ensures
            op == (PioOp::Exec { sm: TX_SM, instr: SET_PINDIRS_IN }),
    {
        PioOp::Exec { sm: TX_SM, instr: SET_PINDIRS_IN }
    }

    /// Step `i` of loading the initial words of a pre-encoded packet without
    /// starting SM0; `None` behind the last step.
    ///
    /// `words` must fit in the joined eight-word TX FIFO.
    pub fn prepare_tx_packet(&self, words: &[u32], i: usize) -> (op: Option<PioOp>)
        requires
            words@.len() <= TX_FIFO_DEPTH,
        ensures
            op == step_at(prepare_ops(self.start_instr(), words@), i as int),
    {
        if i == 0 {
            Some(PioOp::Disable { sm: TX_SM })
        } else if i == 1 {
            Some(PioOp::ClearFifos { sm: TX_SM })
        } else if i == 2 {
            Some(PioOp::Restart { sm: TX_SM })
        } else if i == 3 {
            Some(PioOp::Exec { sm: TX_SM, instr: self.tx_start_instr })
        } else if i - 4 < words.len() {
            Some(PioOp::Push { sm: TX_SM, word: words[i - 4] })
        } else if i - 4 == words.len() {
            Some(PioOp::ClearIrq { flags: IRQ_TX_EOP_BIT })
        } else {
            None
        }
    }

    /// Step `i` of preloading an ACK handshake and releasing the bus for a device
    /// DATA packet; `None` behind the last step.
    ///
    /// Used by the IN receive path so the host ACK can be sent immediately at EOP.
    pub fn prepare_ack_and_release_bus(&self, i: usize) -> (op: Option<PioOp>)
        ensures
            op == step_at(ack_ops(self.start_instr()), i as int),
    {
        proof {
            encoding::lemma_ack_packet();
        }
        if i == ACK_PACKET.len() + 5 {
            Some(self.release_bus())
        } else {
            self.prepare_tx_packet(ACK_PACKET.as_slice(), i)
        }
    }

    /// Enable SM0 to start a packet that was already loaded into the FIFO.
    pub fn start_tx(&self) -> (op: PioOp)
        ensures
            op == (PioOp::Enable { sm: TX_SM }),
    {
        PioOp::Enable { sm: TX_SM }
    }

    /// Step `i` of waiting until the PIO player has emitted EOP and reached its
    /// released-bus slot; `None` behind the last step.
    pub fn wait_steps(i: usize) -> (step: Option<TxWaitStep>)
        ensures
            step == step_at(wait_sequence(), i as int),
    {
        if i == 0 || i == 2 {
            Some(TxWaitStep::StartWindow)
        } else if i == 1 {
            Some(TxWaitStep::Await(TxWait::Eop))
        } else if i == 3 {
            Some(TxWaitStep::Await(TxWait::Release))
        } else {
            None
        }
    }

    /// Whether waiting for a transmitted packet is over: the PIO player has emitted
    /// EOP, or reached its released-bus slot, or neither in time.
    ///
    /// `register` holds the IRQ flags when waiting for EOP, and the pins' output
    /// enables when waiting for the release.
    pub fn wait(&self, what: TxWait, register: u32, since: u32, now: u32) -> (over: bool)
        ensures
            over == wait_over(what, register, self.pin_mask(), since, now),
    {
        let seen = match what {
            TxWait::Eop => register & (IRQ_TX_EOP_BIT as u32) != 0,
            TxWait::Release => register & self.tx_pin_mask == 0,
        };
        seen || elapsed_us(since, now) > TX_WAIT_TIMEOUT_US
    }

    /// Step `i` of transmitting a pre-encoded packet; `None` behind the last step.
    pub fn transmit(&self, words: &[u32], i: usize) -> (step: Option<TxStep>)
        ensures
            step == step_at(transmit_steps(self.start_instr(), words@), i as int),
    {
        let n = if words.len() <= TX_FIFO_DEPTH {
            words.len()
        } else {
            TX_FIFO_DEPTH
        };
        let ghost first = prepare_ops(self.start_instr(), words@.take(n as int));
        let ghost all = transmit_steps(self.start_instr(), words@);
        let ghost started = start_steps(words@.skip(n as int));
        let left = words.len() - n;
        if i < n + 5 {
            let initial = vstd::slice::slice_subrange(words, 0, n);
            assert(initial@ =~= words@.take(n as int));
            let op = self.prepare_tx_packet(initial, i);
            assert(all[i as int] == TxStep::Op(first[i as int]));
            return match op {
                Some(op) => Some(TxStep::Op(op)),
                None => None,
            };
        }
        let k = i - (n + 5);
        assert(first.len() == n + 5);
        assert(k < started.len() ==> all[i as int] == started[k as int]);
        if left == 0 {
            if k == 0 {
                Some(TxStep::Op(self.start_tx()))
            } else if k == 1 {
                Some(TxStep::AwaitDone)
            } else {
                None
            }
        } else if k == 0 {
            Some(TxStep::EnterCritical)
        } else if k == 1 {
            Some(TxStep::Op(self.start_tx()))
        } else if (k - 2) / 2 < left {
            assert(started[k as int] == feed_steps(words@.skip(n as int))[k - 2]);
            if k % 2 == 0 {
                Some(TxStep::AwaitSpace)
            } else {
                Some(TxStep::Op(PioOp::Push { sm: TX_SM, word: words[n + (k - 2) / 2] }))
            }
        } else if k - 2 == 2 * left {
            Some(TxStep::LeaveCritical)
        } else if k - 2 == 2 * left + 1 {
            Some(TxStep::AwaitDone)
        } else {
            None
        }
    }
}

/// Entry `i` of a sequence of steps, if there is one.
pub open spec fn step_at<A>(steps: Seq<A>, i: int) -> Option<A> {
    if i < steps.len() {
        Some(steps[i])
    } else {
        None
    }
}

/// The words that go into the TX FIFO over a sequence of steps, in order.
pub open spec fn pushed_words(steps: Seq<TxStep>) -> Seq<u32>
    decreases steps.len(),
{
    if steps.len() == 0 {
        Seq::empty()
    } else {
        match steps.last() {
            TxStep::Op(PioOp::Push { sm, word }) => pushed_words(steps.drop_last()).push(word),
            _ => pushed_words(steps.drop_last()),
        }
    }
}

/// Whether a step starts the player.
pub open spec fn starts_player(step: TxStep) -> bool {
    step == TxStep::Op(PioOp::Enable { sm: TX_SM })
}

proof fn lemma_pushed_concat(a: Seq<TxStep>, b: Seq<TxStep>)
    ensures
        pushed_words(a + b) == pushed_words(a) + pushed_words(b),
    decreases b.len(),
{
    if b.len() == 0 {
        assert(a + b =~= a);
        assert(pushed_words(a) + pushed_words(b) =~= pushed_words(a));
    } else {
        lemma_pushed_concat(a, b.drop_last());
        assert((a + b).drop_last() =~= a + b.drop_last());
        assert(pushed_words(a + b) =~= pushed_words(a) + pushed_words(b));
    }
}

proof fn lemma_pushed_nothing(steps: Seq<TxStep>)
    requires
        forall|i: int|
            0 <= i < steps.len() ==> !(#[trigger] steps[i] matches TxStep::Op(PioOp::Push { sm, word })),
    ensures
        pushed_words(steps) == Seq::<u32>::empty(),
    decreases steps.len(),
{
    if steps.len() > 0 {
        lemma_pushed_nothing(steps.drop_last());
    }
}

/// The pushes of [`prepare_ops`].
spec fn push_steps(words: Seq<u32>) -> Seq<TxStep> {
    Seq::new(words.len(), |i: int| TxStep::Op(PioOp::Push { sm: TX_SM, word: words[i] }))
}

proof fn lemma_pushed_all(words: Seq<u32>)
    ensures
        pushed_words(push_steps(words)) == words,
    decreases words.len(),
{
    if words.len() == 0 {
        assert(words =~= Seq::empty());
    } else {
        lemma_pushed_all(words.drop_last());
        assert(push_steps(words).drop_last() =~= push_steps(words.drop_last()));
        assert(words.drop_last().push(words.last()) =~= words);
    }
}

proof fn lemma_pushed_by_feeding(words: Seq<u32>)
    ensures
        pushed_words(feed_steps(words)) == words,
    decreases words.len(),
{
    if words.len() == 0 {
        assert(words =~= Seq::empty());
    } else {
        let less = words.drop_last();
        lemma_pushed_by_feeding(less);
        let steps = feed_steps(words);
        assert(steps.drop_last().drop_last() =~= feed_steps(less));
        assert(steps.drop_last().last() == TxStep::AwaitSpace);
        assert(steps.last() == TxStep::Op(PioOp::Push { sm: TX_SM, word: words.last() }));
        assert(pushed_words(steps.drop_last()) == less);
        assert(less.push(words.last()) =~= words);
    }
}

/// The steps that load the FIFO, as steps of a transmission.
spec fn load_steps(start_instr: u16, words: Seq<u32>) -> Seq<TxStep> {
    prepare_ops(start_instr, words).map_values(|op: PioOp| TxStep::Op(op))
}

proof fn lemma_pushed_by_loading(start_instr: u16, words: Seq<u32>)
    ensures
        pushed_words(load_steps(start_instr, words)) == words,
        load_steps(start_instr, words).len() == words.len() + 5,
        forall|i: int|
            0 <= i < words.len() + 5 ==> !starts_player(#[trigger] load_steps(start_instr, words)[i]),
{
    let head = seq![
        TxStep::Op(PioOp::Disable { sm: TX_SM }),
        TxStep::Op(PioOp::ClearFifos { sm: TX_SM }),
        TxStep::Op(PioOp::Restart { sm: TX_SM }),
        TxStep::Op(PioOp::Exec { sm: TX_SM, instr: start_instr }),
    ];
    let tail = seq![TxStep::Op(PioOp::ClearIrq { flags: IRQ_TX_EOP_BIT })];
    let steps = load_steps(start_instr, words);
    assert(steps =~= head + push_steps(words) + tail);
    lemma_pushed_concat(head + push_steps(words), tail);
    lemma_pushed_concat(head, push_steps(words));
    lemma_pushed_nothing(head);
    lemma_pushed_nothing(tail);
    lemma_pushed_all(words);
    assert(pushed_words(steps) =~= words);
}

/// A transmission queues exactly the words of the packet, in order.
pub proof fn law_transmit_queues_packet(start_instr: u16, words: Seq<u32>)
    ensures
        pushed_words(transmit_steps(start_instr, words)) == words,
{
    let n = initial_count(words);
    let rest = words.skip(n);
    let load = load_steps(start_instr, words.take(n));
    let start = start_steps(rest);
    let done = seq![TxStep::AwaitDone];
    lemma_pushed_by_loading(start_instr, words.take(n));
    lemma_pushed_nothing(done);
    lemma_pushed_concat(load + start, done);
    lemma_pushed_concat(load, start);
    if rest.len() == 0 {
        lemma_pushed_nothing(start);
    } else {
        let open = seq![TxStep::EnterCritical, TxStep::Op(PioOp::Enable { sm: TX_SM })];
        let close = seq![TxStep::LeaveCritical];
        lemma_pushed_nothing(open);
        lemma_pushed_nothing(close);
        lemma_pushed_by_feeding(rest);
        lemma_pushed_concat(open + feed_steps(rest), close);
        lemma_pushed_concat(open, feed_steps(rest));
    }
    assert(pushed_words(load) + pushed_words(start) =~= words);
    assert(pushed_words(transmit_steps(start_instr, words)) =~= words);
}

/// What is queued before the player starts fits the FIFO, and it is the whole
/// packet unless the packet is longer than the FIFO.
pub proof fn law_player_starts_with_full_fifo(start_instr: u16, words: Seq<u32>)
    ensures
        ({
            let steps = transmit_steps(start_instr, words);
            let n = initial_count(words);
            &&& pushed_words(steps.take(n + 5)) == words.take(n)
            &&& n <= TX_FIFO_DEPTH
            &&& forall|i: int| 0 <= i < n + 5 ==> !starts_player(#[trigger] steps[i])
            &&& starts_player(
                steps[if words.len() <= TX_FIFO_DEPTH {
                    n + 5
                } else {
                    n + 6
                }],
            )
        }),
{
    let n = initial_count(words);
    let load = load_steps(start_instr, words.take(n));
    let steps = transmit_steps(start_instr, words);
    lemma_pushed_by_loading(start_instr, words.take(n));
    assert(steps.take(n + 5) =~= load);
    assert forall|i: int| 0 <= i < n + 5 implies !starts_player(#[trigger] steps[i]) by {
        assert(steps[i] == load[i]);
    }
}

/// The level that a side-set value drives onto a pin of a pair: the first pin of the
/// pair is bit 0.
pub open spec fn pin_driven(side: u16, pair: (u8, u8), pin: u8) -> bool {
    if pin == pair.0 {
        side & 1 == 1
    } else {
        side & 2 == 2
    }
}

/// Whichever way the pins are wired, the J slot of the player that a speed selects
/// drives D+ high and D- low, and the other way round at low speed; the K slot
/// drives the opposite; SE0 drives both low. The start instruction jumps behind the
/// symbol slots with the lines in state J.
pub proof fn law_player_polarity(dp: u8, dm: u8, speed: Speed)
    requires
        dp != dm,
    ensures
        ({
            let pair = ascending(dp, dm);
            let code = player_for(j_high_on_lower(dp < dm, speed));
            let j = tx_pio::side_value(code[line_code::SYM_J as int]);
            let k = tx_pio::side_value(code[line_code::SYM_K as int]);
            let se0 = tx_pio::side_value(code[line_code::SYM_SE0 as int]);
            &&& pin_driven(j, pair, dp) == !(speed is Low)
            &&& pin_driven(j, pair, dm) == (speed is Low)
            &&& pin_driven(k, pair, dp) == (speed is Low)
            &&& pin_driven(k, pair, dm) == !(speed is Low)
            &&& !pin_driven(se0, pair, dp) && !pin_driven(se0, pair, dm)
            &&& tx_pio::side_value(start_instr_for(j_high_on_lower(dp < dm, speed))) == j
            &&& start_instr_for(j_high_on_lower(dp < dm, speed)) & 0x1f == 4
        }),
{
    tx_pio::law_symbols_address_their_slots(1, 2);
    tx_pio::law_symbols_address_their_slots(2, 1);
    assert(1u16 & 1 == 1 && 1u16 & 2 == 0 && 2u16 & 1 == 0 && 2u16 & 2 == 2 && 0u16 & 1 == 0 && 0u16 & 2 == 0
        && (0x0804u16 >> 11) & 3 == 1 && (0x1004u16 >> 11) & 3 == 2 && 0x0804u16 & 0x1f == 4 && 0x1004u16
        & 0x1f == 4) by (bit_vector);
}

/// Asking for the steps one by one gives all of them in order, and then none.
pub proof fn law_steps_are_enumerated<A>(steps: Seq<A>, i: int)
    requires
        0 <= i,
    ensures
        step_at(steps, i) is Some <==> i < steps.len(),
        i < steps.len() ==> steps[i] == step_at(steps, i)->0,
{
}

/// The transmit state machine once a packet is loaded: stopped at the player's start
/// slot with nothing but the packet in its FIFO.
pub open spec fn loaded(executed: Seq<u16>, words: Seq<u32>, running: bool) -> Machine {
    Machine { running, executed, queued: words, emptied: true, restarted: true }
}

proof fn lemma_perform_pushes(block: Block, words: Seq<u32>)
    requires
        block.wf(),
    ensures
        ({
            let ops = Seq::new(words.len(), |i: int| PioOp::Push { sm: TX_SM, word: words[i] });
            block.perform(ops) == block.with(
                TX_SM,
                Machine { queued: block.machines[0].queued + words, ..block.machines[0] },
            )
        }),
    decreases words.len(),
{
    let ops = Seq::new(words.len(), |i: int| PioOp::Push { sm: TX_SM, word: words[i] });
    let less = words.drop_last();
    if words.len() == 0 {
        assert(block.machines[0].queued + words =~= block.machines[0].queued);
        assert(block.machines.update(0, block.machines[0]) =~= block.machines);
    } else {
        lemma_perform_pushes(block, less);
        assert(ops.drop_last() =~= Seq::new(
            less.len(),
            |i: int| PioOp::Push { sm: TX_SM, word: less[i] },
        ));
        let q = block.machines[0].queued;
        assert((q + less).push(words.last()) =~= q + words);
        let m = Machine { queued: q + words, ..block.machines[0] };
        assert(block.perform(ops).machines =~= block.machines.update(0, m));
    }
}

proof fn lemma_perform_head(block: Block, start_instr: u16)
    requires
        block.wf(),
    ensures
        block.perform(
            seq![
                PioOp::Disable { sm: TX_SM },
                PioOp::ClearFifos { sm: TX_SM },
                PioOp::Restart { sm: TX_SM },
                PioOp::Exec { sm: TX_SM, instr: start_instr },
            ],
        ) == block.with(TX_SM, loaded(seq![start_instr], Seq::empty(), false)),
{
    let ops = seq![
        PioOp::Disable { sm: TX_SM },
        PioOp::ClearFifos { sm: TX_SM },
        PioOp::Restart { sm: TX_SM },
        PioOp::Exec { sm: TX_SM, instr: start_instr },
    ];
    reveal_with_fuel(Block::perform, 5);
    assert(ops.drop_last().drop_last().drop_last().drop_last() =~= Seq::empty());
    assert(Seq::<u16>::empty().push(start_instr) =~= seq![start_instr]);
    let r = block.perform(ops);
    assert(r.machines =~= block.machines.update(
        0,
        loaded(seq![start_instr], Seq::empty(), false),
    ));
}

/// Loading a packet leaves the transmit state machine stopped at its start slot, with
/// exactly the packet's words in its FIFO and the player's EOP flag down; it touches no
/// other state machine and no other flag, and the player does not run meanwhile.
pub proof fn law_loading_a_packet(block: Block, start_instr: u16, words: Seq<u32>)
    requires
        block.wf(),
    ensures
        ({
            let after = block.perform(prepare_ops(start_instr, words));
            &&& after.machines == block.machines.update(0, loaded(seq![start_instr], words, false))
            &&& after.raised == block.raised.remove(0)
        }),
        prepare_ops(start_instr, words)[0] == (PioOp::Disable { sm: 0 }),
        !prepare_ops(start_instr, words).contains(PioOp::Enable { sm: 0 }),
{
    let head = seq![
        PioOp::Disable { sm: TX_SM },
        PioOp::ClearFifos { sm: TX_SM },
        PioOp::Restart { sm: TX_SM },
        PioOp::Exec { sm: TX_SM, instr: start_instr },
    ];
    let pushes = Seq::new(words.len(), |i: int| PioOp::Push { sm: TX_SM, word: words[i] });
    let tail = seq![PioOp::ClearIrq { flags: IRQ_TX_EOP_BIT }];
    let ops = prepare_ops(start_instr, words);
    ram::lemma_perform_concat(block, head + pushes, tail);
    ram::lemma_perform_concat(block, head, pushes);
    lemma_perform_head(block, start_instr);
    let b1 = block.perform(head);
    lemma_perform_pushes(b1, words);
    let b2 = b1.perform(pushes);
    assert(Seq::<u32>::empty() + words =~= words);
    assert(b2.machines =~= block.machines.update(0, loaded(seq![start_instr], words, false)));
    assert(tail.drop_last() =~= Seq::empty());
    reveal_with_fuel(Block::perform, 2);
    ram::lemma_flag_masks();
    let b3 = b2.perform(tail);
    assert(b3.raised =~= block.raised.remove(0));
}

/// Staging the ACK leaves the player stopped with the handshake in its FIFO and the
/// lines released, so that starting it is all that is left to do.
pub proof fn law_staging_the_ack(block: Block, start_instr: u16)
    requires
        block.wf(),
    ensures
        ({
            let after = block.perform(ack_ops(start_instr));
            &&& after.machines[0].executed == seq![start_instr, SET_PINDIRS_IN]
            &&& line_code::line_decode(after.machines[0].queued) == seq![0x80u8, 0xD2u8]
            &&& after.machines[0].emptied && after.machines[0].restarted && !after.machines[0].running
            &&& forall|sm: int| 1 <= sm < 4 ==> after.machines[sm] == block.machines[sm]
            &&& after.raised == block.raised.remove(0)
        }),
{
    let words = line_code::packet_words(seq![USB_SYNC, USB_PID_ACK]);
    law_loading_a_packet(block, start_instr, words);
    line_code::law_line_round_trip(seq![USB_SYNC, USB_PID_ACK]);
    let ops = ack_ops(start_instr);
    assert(ops.drop_last() =~= prepare_ops(start_instr, words));
    assert(seq![start_instr].push(SET_PINDIRS_IN) =~= seq![start_instr, SET_PINDIRS_IN]);
}

/// The accesses among the steps of a transmission.
pub open spec fn accesses(steps: Seq<TxStep>) -> Seq<PioOp>
    decreases steps.len(),
{
    if steps.len() == 0 {
        Seq::empty()
    } else {
        match steps.last() {
            TxStep::Op(op) => accesses(steps.drop_last()).push(op),
            _ => accesses(steps.drop_last()),
        }
    }
}

proof fn lemma_accesses_concat(a: Seq<TxStep>, b: Seq<TxStep>)
    ensures
        accesses(a + b) == accesses(a) + accesses(b),
    decreases b.len(),
{
    if b.len() == 0 {
        assert(a + b =~= a);
        assert(accesses(a) + accesses(b) =~= accesses(a));
    } else {
        lemma_accesses_concat(a, b.drop_last());
        assert((a + b).drop_last() =~= a + b.drop_last());
        assert(accesses(a + b) =~= accesses(a) + accesses(b));
    }
}

proof fn lemma_accesses_of_ops(ops: Seq<PioOp>)
    ensures
        accesses(ops.map_values(|op: PioOp| TxStep::Op(op))) == ops,
    decreases ops.len(),
{
    let steps = ops.map_values(|op: PioOp| TxStep::Op(op));
    if ops.len() == 0 {
        assert(ops =~= Seq::empty());
    } else {
        lemma_accesses_of_ops(ops.drop_last());
        assert(steps.drop_last() =~= ops.drop_last().map_values(|op: PioOp| TxStep::Op(op)));
        assert(ops.drop_last().push(ops.last()) =~= ops);
    }
}

proof fn lemma_accesses_of_feeding(words: Seq<u32>)
    ensures
        accesses(feed_steps(words)) == Seq::new(
            words.len(),
            |i: int| PioOp::Push { sm: TX_SM, word: words[i] },
        ),
    decreases words.len(),
{
    let pushes = Seq::new(words.len(), |i: int| PioOp::Push { sm: TX_SM, word: words[i] });
    if words.len() == 0 {
        assert(pushes =~= Seq::empty());
    } else {
        let less = words.drop_last();
        lemma_accesses_of_feeding(less);
        let steps = feed_steps(words);
        assert(steps.drop_last().drop_last() =~= feed_steps(less));
        assert(steps.drop_last().last() == TxStep::AwaitSpace);
        assert(steps.last() == TxStep::Op(PioOp::Push { sm: TX_SM, word: words.last() }));
        let before = accesses(feed_steps(less));
        assert(accesses(steps.drop_last()) == before);
        assert(before.push(PioOp::Push { sm: TX_SM, word: words.last() }) =~= pushes);
    }
}

/// A transmission leaves the player running behind its start slot with all words of the
/// packet handed over in order and its EOP flag put down before it started; nothing
/// else in the block is touched.
pub proof fn law_transmission_effect(block: Block, start_instr: u16, words: Seq<u32>)
    requires
        block.wf(),
    ensures
        ({
            let after = block.perform(accesses(transmit_steps(start_instr, words)));
            &&& after.machines == block.machines.update(0, loaded(seq![start_instr], words, true))
            &&& after.raised == block.raised.remove(0)
        }),
{
    let n = initial_count(words);
    let first = words.take(n);
    let rest = words.skip(n);
    let load = prepare_ops(start_instr, first);
    let load_part = load.map_values(|op: PioOp| TxStep::Op(op));
    let start = start_steps(rest);
    let done = seq![TxStep::AwaitDone];
    let enable = seq![PioOp::Enable { sm: TX_SM }];
    let pushes = Seq::new(rest.len(), |i: int| PioOp::Push { sm: TX_SM, word: rest[i] });
    reveal_with_fuel(accesses, 3);
    lemma_accesses_of_ops(load);
    lemma_accesses_concat(load_part + start, done);
    lemma_accesses_concat(load_part, start);
    assert(accesses(done) =~= Seq::empty());
    if rest.len() == 0 {
        assert(start.drop_last() =~= Seq::empty());
        assert(accesses(start) =~= enable + pushes);
    } else {
        let open = seq![TxStep::EnterCritical, TxStep::Op(PioOp::Enable { sm: TX_SM })];
        let close = seq![TxStep::LeaveCritical];
        lemma_accesses_of_feeding(rest);
        lemma_accesses_concat(open + feed_steps(rest), close);
        lemma_accesses_concat(open, feed_steps(rest));
        assert(open.drop_last().drop_last() =~= Seq::empty());
        assert(close.drop_last() =~= Seq::empty());
        assert(accesses(open) =~= enable);
        assert(accesses(close) =~= Seq::empty());
        assert(accesses(start) =~= enable + pushes);
    }
    assert(accesses(transmit_steps(start_instr, words)) =~= load + (enable + pushes));
    ram::lemma_perform_concat(block, load, enable + pushes);
    law_loading_a_packet(block, start_instr, first);
    let b1 = block.perform(load);
    ram::lemma_perform_concat(b1, enable, pushes);
    assert(enable.drop_last() =~= Seq::empty());
    reveal_with_fuel(Block::perform, 2);
    let b2 = b1.perform(enable);
    assert(b2.machines =~= block.machines.update(0, loaded(seq![start_instr], first, true)));
    lemma_perform_pushes(b2, rest);
    assert(first + rest =~= words);
    let b3 = b2.perform(pushes);
    assert(b3.machines =~= block.machines.update(0, loaded(seq![start_instr], words, true)));
}

/// How a transmission is paced. It ends, and only then, with the wait for the packet.
/// Words that do not fit the FIFO are queued while the player runs: each once there is
/// space for it, and all of that, from the start of the player on, with interrupts kept
/// away. A packet that fits needs no such section.
pub proof fn law_transmission_pacing(start_instr: u16, words: Seq<u32>, i: int)
    requires
        0 <= i < transmit_steps(start_instr, words).len(),
    ensures
        ({
            let steps = transmit_steps(start_instr, words);
            let len = steps.len() as int;
            let fits = words.len() <= 8;
            &&& len == (if fits {
                words.len() + 7
            } else {
                2 * words.len() + 1
            })
            &&& steps[i] is AwaitDone <==> i == len - 1
            &&& steps[i] is EnterCritical <==> !fits && i == 13
            &&& steps[i] is LeaveCritical <==> !fits && i == len - 2
            &&& starts_player(steps[i]) <==> i == (if fits {
                words.len() as int + 5
            } else {
                14
            })
            &&& steps[i] is AwaitSpace ==> !fits && 15 <= i < len - 2
            &&& !fits && 15 <= i < len - 2 ==> (steps[i] is AwaitSpace <==> i % 2 == 1)
            &&& !fits && 15 <= i < len - 2 && i % 2 == 0 ==> steps[i] == TxStep::Op(
                PioOp::Push { sm: 0, word: words[i / 2] },
            )
        }),
{
    let n = initial_count(words);
    let rest = words.skip(n);
    let load = prepare_ops(start_instr, words.take(n)).map_values(|op: PioOp| TxStep::Op(op));
    let steps = transmit_steps(start_instr, words);
    assert(load.len() == n + 5);
    if i < n + 5 {
        assert(steps[i] == load[i]);
    } else if words.len() > 8 {
        assert(start_steps(rest).len() == 2 * rest.len() + 3);
        let k = i - (n + 5);
        if 2 <= k < 2 + 2 * rest.len() {
            assert(steps[i] == feed_steps(rest)[k - 2]);
        }
    }
}

/// The two waits for a packet: first for its EOP, then for the release of the bus, and
/// a window that starts right before each.
pub proof fn law_waits_have_windows_of_their_own(i: int)
    requires
        0 <= i < wait_sequence().len(),
    ensures
        wait_sequence().len() == 4,
        wait_sequence()[i] is StartWindow <==> i % 2 == 0,
        wait_sequence()[i] == TxWaitStep::Await(TxWait::Eop) <==> i == 1,
        wait_sequence()[i] == TxWaitStep::Await(TxWait::Release) <==> i == 3,
{
}

/// Within 50 microseconds a wait goes on until what it is for has come, and no wait
/// goes on for longer. EOP is the lowest flag of the register; the bus is released when
/// the outputs of both pins are off, whatever the other pins do.
pub proof fn law_wait_ends(register: u32, pin_mask: u32, since: u32, now: u32)
    ensures
        ram::elapsed(since, now) > 50 ==> wait_over(TxWait::Eop, register, pin_mask, since, now)
            && wait_over(TxWait::Release, register, pin_mask, since, now),
        ram::elapsed(since, now) <= 50 ==> (wait_over(TxWait::Eop, register, pin_mask, since, now)
            <==> register % 2 == 1),
        ram::elapsed(since, now) <= 50 ==> (wait_over(TxWait::Release, register, pin_mask, since, now)
            <==> register & pin_mask == 0),
{
    assert((register & 1 != 0) == (register % 2 == 1)) by (bit_vector);
}

/// The line clocks: the player spends four cycles on a symbol, so it runs at four times
/// the bit rate, which is 1.5 Mb/s at low speed and 12 Mb/s otherwise.
pub proof fn law_player_clock(speed: Speed)
    ensures
        tx_clock_hz(speed) == 4 * (if speed is Low {
            1_500_000int
        } else {
            12_000_000int
        }),
{
}

/// The player takes symbols from the top of each FIFO word, 32 bits to a word and the
/// next word by itself, out of all eight words of the FIFO.
pub proof fn law_transmit_configuration(setup: TxSetup, dp: u8, dm: u8, speed: Speed)
    requires
        dp != dm,
        is_tx_setup(setup, j_high_on_lower(dp < dm, speed), speed),
    ensures
        setup.shift_out.left && setup.shift_out.auto_fill && setup.shift_out.threshold == 32,
        setup.fifo_join is TxOnly,
        setup.clock_hz == (if speed is Low {
            6_000_000u32
        } else {
            48_000_000u32
        }),
        setup.program.code@.len() == 5,
        setup.program.origin == Some(0u8),
        setup.program.wrap_target == 1 && setup.program.wrap_source == 4,
        setup.program.side_set_bits == 2,
        ({
            let j = tx_pio::side_value(setup.program.code@[line_code::SYM_J as int]);
            &&& pin_driven(j, ascending(dp, dm), dp) == !(speed is Low)
            &&& pin_driven(j, ascending(dp, dm), dm) == (speed is Low)
        }),
{
    law_player_polarity(dp, dm, speed);
}

/// Configuring the transmit side stops its state machine first; behind it that runs, and
/// the last that it was made to execute has released the lines.
pub proof fn law_transmit_restart(block: Block, setup: TxSetup, j_on_lower: bool, speed: Speed)
    requires
        block.wf(),
        is_tx_setup(setup, j_on_lower, speed),
    ensures
        ({
            let stopped = block.access(setup.stop);
            let after = stopped.perform(setup.run@);
            &&& stopped.machines == block.machines.update(
                0,
                Machine { running: false, ..block.machines[0] },
            )
            &&& after.machines == block.machines.update(
                0,
                Machine {
                    running: true,
                    executed: block.machines[0].executed.push(0xE080),
                    ..block.machines[0]
                },
            )
            &&& after.raised == block.raised
        }),
{
    reveal_with_fuel(Block::perform, 3);
    let run = setup.run@;
    assert(run.drop_last().drop_last() =~= Seq::empty());
    let stopped = block.access(setup.stop);
    assert(stopped.perform(run).machines =~= block.machines.update(
        0,
        Machine { running: true, executed: block.machines[0].executed.push(0xE080), ..block.machines[0] },
    ));
}

/// A reset stops the player before it makes both lines outputs and both low. Behind it
/// the player runs from its start slot. No other state machine and no flag is touched.
pub proof fn law_reset_effect(block: Block, start_instr: u16)
    requires
        block.wf(),
    ensures
        ({
            let low = block.perform(se0_ops());
            let after = low.perform(release_ops(start_instr));
            let executed = block.machines[0].executed.push(0xE083).push(0xE000);
            &&& se0_ops()[0] == (PioOp::Disable { sm: 0 })
            &&& low.machines == block.machines.update(
                0,
                Machine { running: false, executed, ..block.machines[0] },
            )
            &&& after.machines == block.machines.update(
                0,
                Machine { running: true, executed: executed.push(start_instr), ..block.machines[0] },
            )
            &&& release_ops(start_instr)[1] == (PioOp::Enable { sm: 0 })
            &&& low.raised == block.raised && after.raised == block.raised
        }),
{
    reveal_with_fuel(Block::perform, 4);
    assert(se0_ops().drop_last().drop_last().drop_last() =~= Seq::empty());
    assert(release_ops(start_instr).drop_last().drop_last() =~= Seq::empty());
    let executed = block.machines[0].executed.push(0xE083).push(0xE000);
    let low = block.perform(se0_ops());
    assert(low.machines =~= block.machines.update(
        0,
        Machine { running: false, executed, ..block.machines[0] },
    ));
    assert(low.perform(release_ops(start_instr)).machines =~= block.machines.update(
        0,
        Machine { running: true, executed: executed.push(start_instr), ..block.machines[0] },
    ));
}

/// The pins of the pair in ascending order are the pair.
pub proof fn law_pair_ascends(dp: u8, dm: u8)
    ensures
        ascending(dp, dm).0 <= ascending(dp, dm).1,
        ascending(dp, dm) == (dp, dm) || ascending(dp, dm) == (dm, dp),
{
}

/// The mask of a pair has the bits of its two pins and no other.
pub proof fn law_pair_mask(dp: int, dm: int, pin: int)
    requires
        0 <= dp < 32,
        0 <= dm < 32,
        0 <= pin < 32,
    ensures
        (pair_mask(dp, dm) >> (pin as u32)) & 1 == 1 <==> pin == dp || pin == dm,
{
    let (a, b, i) = (dp as u32, dm as u32, pin as u32);
    assert(((((1u32 << a) | (1u32 << b)) >> i) & 1 == 1) == (i == a || i == b)) by (bit_vector)
        requires
            a < 32,
            b < 32,
            i < 32,
    ;
}

} // verus!
