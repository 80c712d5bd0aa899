//! Direct root-port USB bus built from one RP PIO block and two adjacent GPIOs.
//!
//! This layer decides speed detection, debounce, reset, and low-/full-speed
//! keep-alives, and keeps the state that those decisions rest on.
use crate::chip;
use crate::chip::{configure_pio_gpio_base, Chip};
use crate::encoding;
use crate::encoding::{build_sof, LS_KEEPALIVE_PACKET};
use crate::frame_counter;
use crate::frame_counter::{advance_frame, FRAME_NUMBERS};
use crate::line_code;
use crate::ram;
use crate::ram::{elapsed_us, PioOp, TX_SM};
use crate::rx_driver;
use crate::rx_driver::{RxDriver, RxSetup};
use crate::rx_timing;
use crate::tx_driver;
use crate::tx_driver::{TxDriver, TxSetup, SET_PINDIRS_IN};
use crate::types::{DeviceEvent, Speed};
use vstd::prelude::*;

verus! {

/// Root-port reset SE0 duration.
///
/// USB 2.0 §7.1.7.5 "Reset Signaling" (T_DRST, table 7-14) requires at least
/// 10 ms of SE0; 15 ms leaves some margin.
pub const RESET_SE0_US: u64 = 15_000;

/// Reset-recovery hold: after releasing reset, emit SOF-only frames (no transactions)
/// for this many frames before talking to the device. USB 2.0 §7.1.7.5 reset-recovery
/// interval T_RSTRCY (table 7-14) is at least 10 ms; at one frame/ms (below) 15 frames
/// are about 15 ms.
pub const RESET_RECOVERY_FRAMES: u32 = 15;

/// Debounce counter
///
/// A device has to be plugged in for at least this many frames (1 ms each) before we
/// consider it "attached".
pub const DEBOUNCE_FRAMES: u32 = 15;

/// Debounce cap
///
/// A device has to be unplugged for at least this many frames (1 ms each), and for that
/// many more than it is seen again meanwhile, before we consider it "detached".
pub const DEBOUNCE_CAP: u32 = 60;

/// Full-speed frame interval in microseconds.
///
/// USB 2.0 §7.1.12 and §8.4.3 define one full-speed frame every 1.000 ms
/// ±0.0005 ms. This is used as the SOF/low-speed keep-alive period, presence-poll
/// period, and retry cadence.
pub const FRAME_INTERVAL_US: u32 = 1000;

/// Pull-down configuration for the USB bus.
///
/// USB mandates 15k pull-downs on the D+/D- lines to detect device presence.
/// The PIO-USB host transport can either drive internal pull-downs
/// on the D+/D- lines or leave it to external pull-down resistors. External pull-downs
/// are preferable, as the internal ones do not meet its limits.
///
/// Using the internal pull-downs may let you get away with wiring the D+/D- lines
/// directly to a socket, but it is not recommended for production use.
#[derive(Debug, Clone, Copy, PartialEq, Eq, Structural)]
pub enum Pulldown {
    /// Enable the RP's internal D+/D- pull-downs.
    Internal,
    /// Leave D+/D- pull-downs to external resistors.
    External,
}

/// How each of the two pins is configured.
#[derive(Debug, Clone, Copy, PartialEq, Eq, Structural)]
pub struct PinSetup {
    /// Whether the pin's internal pull-down is on; it has no other pull.
    pub pull_down: bool,
    /// Whether the pin's input is inverted before PIO and SIO see it.
    pub invert_input: bool,
}

/// The configuration of each pin.
pub open spec fn pin_setup_for(pulldown: Pulldown) -> PinSetup {
    PinSetup { pull_down: pulldown is Internal, invert_input: true }
}

/// Configure both pins for a choice of pull-downs.
///
/// The PIO programs are written for inverted line sense.
/// Most of the interesting states are SE0 (both low) and J/K (one high, one low).
/// PIO only supports waiting/conditionally jumping when a pin is high,
/// so the inputs are inverted to simplify the PIO programs.
pub fn pin_setup(pulldown: Pulldown) -> (s: PinSetup)
    ensures
        s.pull_down == (pulldown is Internal),
        s.invert_input,
        s == pin_setup_for(pulldown),
{
    let pull_down = match pulldown {
        Pulldown::Internal => true,
        Pulldown::External => false,
    };
    PinSetup { pull_down, invert_input: true }
}

/// What keeps the attached device awake now.
#[derive(Debug, Clone, Copy, PartialEq, Eq, Structural)]
pub enum Keepalive {
    /// Nothing is due.
    NotDue,
    /// A start-of-frame packet: see [`Bus::sof`].
    Sof,
    /// A low-speed end of packet: see [`Bus::ls_keepalive`].
    LowSpeed,
}

/// A debounced change of the root port, with what the hardware needs on account
/// of it.
pub enum PortEvent {
    /// A device has become attached; the state machines take its speed.
    Connected { speed: Speed, tx: TxSetup, rx: RxSetup },
    /// The device is gone; the bus is released.
    Disconnected { release: PioOp },
}

/// What comes after a poll of the root port.
#[derive(Debug, Clone, Copy, PartialEq, Eq, Structural)]
pub enum WaitStep {
    /// Poll again in the next frame.
    NextFrame,
    /// Reset the bus, then report the event.
    ResetThenReport(DeviceEvent),
    /// Report the event.
    Report(DeviceEvent),
}

/// One step of a bus reset.
#[derive(Debug, Clone, Copy, PartialEq, Eq, Structural)]
pub enum ResetStep {
    /// Drive SE0.
    DriveSe0,
    /// Wait this many microseconds.
    HoldUs(u64),
    /// Release the bus to idle J.
    Release,
    /// Send a keep-alive if one is due.
    Keepalive,
    /// Wait for the next frame.
    WaitFrame,
}

/// The state of the root port.
pub struct PortState {
    /// The speed the transport is currently configured for.
    pub speed: Speed,
    /// Whether a device is currently attached to the bus.
    pub attached: bool,
    /// Saturating attach/detach debounce accumulator.
    pub debounce: int,
    /// Number of the next SOF frame.
    pub frame: u16,
    /// Time of the last packet put on the bus.
    pub last_activity: u32,
    /// Time of the last SOF packet.
    pub last_sof: u32,
    /// How both pins are configured.
    pub pins: PinSetup,
}

/// The speed of the device that holds the idle lines, from the inverted inputs.
pub open spec fn sensed_speed(dp_input: bool, dm_input: bool) -> Option<Speed> {
    if !dp_input && dm_input {
        Some(Speed::Full)
    } else if dp_input && !dm_input {
        Some(Speed::Low)
    } else {
        None
    }
}

/// A port that has just been set up.
pub open spec fn new_port(pulldown: Pulldown, now: u32) -> PortState {
    PortState {
        speed: Speed::Full,
        attached: false,
        debounce: 0,
        frame: 0,
        last_activity: now,
        last_sof: now,
        pins: pin_setup_for(pulldown),
    }
}

/// The words of the SOF that is next on a port.
pub open spec fn sof_words(state: PortState) -> Seq<u32> {
    line_code::packet_words(encoding::sof_packet(state.frame))
}

/// The port behind a packet that was sent at a time.
pub open spec fn active_at(state: PortState, now: u32) -> PortState {
    PortState { last_activity: now, ..state }
}

/// The accumulator after one sample of the lines: up by one when a device is seen,
/// down by one when not, within `0..=60`.
pub open spec fn debounced(debounce: int, sample: Option<Speed>) -> int {
    if sample is Some {
        if debounce < DEBOUNCE_CAP {
            debounce + 1
        } else {
            DEBOUNCE_CAP as int
        }
    } else if debounce > 0 {
        debounce - 1
    } else {
        0
    }
}

/// The event that one sample of the lines leads to.
pub open spec fn sample_event(state: PortState, sample: Option<Speed>) -> Option<DeviceEvent> {
    let debounce = debounced(state.debounce, sample);
    if !state.attached && debounce >= DEBOUNCE_FRAMES && sample is Some {
        Some(DeviceEvent::Connected(sample->0))
    } else if state.attached && debounce == 0 && sample is None {
        Some(DeviceEvent::Disconnected)
    } else {
        None
    }
}

/// The state behind one sample of the lines. A device that becomes attached fills the
/// accumulator.
pub open spec fn sampled(state: PortState, sample: Option<Speed>) -> PortState {
    let debounce = debounced(state.debounce, sample);
    match sample_event(state, sample) {
        Some(DeviceEvent::Connected(speed)) => PortState {
            debounce: DEBOUNCE_CAP as int,
            speed,
            attached: true,
            ..state
        },
        Some(DeviceEvent::Disconnected) => PortState { debounce, attached: false, ..state },
        None => PortState { debounce, ..state },
    }
}

/// The keep-alive that is due at a time: a full-speed device gets an SOF a frame
/// after the last one, a low-speed device an EOP a frame after the last activity.
pub open spec fn due_keepalive(state: PortState, now: u32) -> Keepalive {
    if state.attached && state.speed is Full && ram::elapsed(state.last_sof, now) >= FRAME_INTERVAL_US {
        Keepalive::Sof
    } else if state.attached && state.speed is Low && ram::elapsed(state.last_activity, now)
        >= FRAME_INTERVAL_US {
        Keepalive::LowSpeed
    } else {
        Keepalive::NotDue
    }
}

/// The state behind a keep-alive that is sent at a time.
pub open spec fn kept_alive(state: PortState, sent: Keepalive, now: u32) -> PortState {
    match sent {
        Keepalive::NotDue => state,
        Keepalive::Sof => PortState {
            frame: frame_counter::next_frame_number(state.frame),
            last_sof: now,
            last_activity: now,
            ..state
        },
        Keepalive::LowSpeed => PortState { last_activity: now, ..state },
    }
}

/// What a port event tells the user of the port.
pub open spec fn reported(event: PortEvent) -> DeviceEvent {
    match event {
        PortEvent::Connected { speed, tx, rx } => DeviceEvent::Connected(speed),
        PortEvent::Disconnected { release } => DeviceEvent::Disconnected,
    }
}

/// What comes after a look at the port: a connection is reported behind a reset.
pub open spec fn step_after(event: Option<DeviceEvent>) -> WaitStep {
    match event {
        Some(DeviceEvent::Connected(speed)) => WaitStep::ResetThenReport(DeviceEvent::Connected(speed)),
        Some(DeviceEvent::Disconnected) => WaitStep::Report(DeviceEvent::Disconnected),
        None => WaitStep::NextFrame,
    }
}

/// A reset: SE0, then idle with nothing but keep-alives for the recovery time.
pub open spec fn reset_steps() -> Seq<ResetStep> {
    seq![ResetStep::DriveSe0, ResetStep::HoldUs(RESET_SE0_US), ResetStep::Release] + Seq::new(
        (2 * RESET_RECOVERY_FRAMES) as nat,
        |i: int|
            if i % 2 == 0 {
                ResetStep::Keepalive
            } else {
                ResetStep::WaitFrame
            },
    )
}

/// The configuration of both sides for a speed: the drivers' own.
pub open spec fn configured(
    tx: TxDriver,
    rx: RxDriver,
    speed: Speed,
    tx_setup: TxSetup,
    rx_setup: RxSetup,
) -> bool {
    let j_on_lower = tx_driver::j_high_on_lower(tx.dp_is_lower(), speed);
    &&& tx.start_instr() == tx_driver::start_instr_for(j_on_lower)
    &&& tx_driver::is_tx_setup(tx_setup, j_on_lower, speed)
    &&& rx_driver::is_rx_setup(rx_setup, rx.dp(), rx.dm(), speed)
}

/// Physical USB bus, implemented with a PIO block and two GPIO pins.
pub struct Bus {
    /// The speed the transport is currently configured for.
    speed: Speed,
    /// Whether a device is currently attached to the bus.
    attached: bool,
    /// Saturating attach/detach debounce accumulator.
    debounce: u32,
    /// Running SOF frame counter (11-bit), advanced by [`Self::sof`].
    frame: u16,
    /// Timestamp of the last packet put on the bus, in microseconds.
    ///
    /// For LS devices, keepalives are sent 1 ms after the last bus activity
    /// (the deadline is 3 ms so we try to keep comfortable headroom).
    /// This is updated by [`Self::mark_activity`] from every TX path, including
    /// keep-alive itself.
    last_activity: u32,
    /// Timestamp of the last SOF packet sent, in microseconds.
    ///
    /// For FS devices, we need to send one SOF frame every millisecond,
    /// *if* the bus is not busy at the moment.
    last_sof: u32,
    /// How both pins are configured.
    pins: PinSetup,
    /// Transmit driver for sending packets on the bus.
    tx: TxDriver,
    /// Receive driver for receiving packets from the bus.
    rx: RxDriver,
}

impl View for Bus {
    type V = PortState;

    closed spec fn view(&self) -> PortState {
        PortState {
            speed: self.speed,
            attached: self.attached,
            debounce: self.debounce as int,
            frame: self.frame,
            last_activity: self.last_activity,
            last_sof: self.last_sof,
            pins: self.pins,
        }
    }
}

impl Bus {
    /// The transmit driver.
    pub closed spec fn tx_driver(&self) -> TxDriver {
        self.tx
    }

    /// The receive driver.
    pub closed spec fn rx_driver(&self) -> RxDriver {
        self.rx
    }

    /// The accumulator is within its bounds, above zero while a device is attached and
    /// short of attaching one otherwise; the frame number has eleven bits.
    pub open spec fn wf(&self) -> bool {
        &&& port_state_wf(self@)
        &&& self@.frame < FRAME_NUMBERS
    }

    /// Construct a root-port bus on adjacent D+/D- pins.
    ///
    /// The PIO state machines are assigned as TX on SM0, RX edge detection on SM1, and
    /// RX decoding on SM2; the two origins are where the programs of the latter were
    /// loaded. `dp` and `dm` must be adjacent GPIOs of one PIO window.
    pub fn new(
        chip: Chip,
        dp: u8,
        dm: u8,
        pulldown: Pulldown,
        edge_origin: u8,
        decoder_origin: u8,
        now: u32,
    ) -> (r: Bus)
        requires
            dp - dm == 1 || dm - dp == 1,
            chip::pair_fits(chip, dp, dm),
            dp < 48 && dm < 48,
            chip is Rp2040 ==> dp < 32 && dm < 32,
        ensures
            r.wf(),
            r@ == (PortState {
                speed: Speed::Full,
                attached: false,
                debounce: 0,
                frame: 0,
                last_activity: now,
                last_sof: now,
                pins: pin_setup_for(pulldown),
            }),
            r@ == new_port(pulldown, now),
            ({
                let high = chip::uses_high_window(chip, dp, dm);
                let dp_local = chip::local_pin(dp, high);
                let dm_local = chip::local_pin(dm, high);
                &&& r.tx_driver().dp() == dp
                &&& r.tx_driver().dm() == dm
                &&& r.tx_driver().start_instr() == tx_driver::start_instr_for(dp < dm)
                &&& r.tx_driver().pin_mask() == (1u32 << (dp_local as u32)) | (1u32 << (dm_local as u32))
                &&& r.tx_driver().pin_mask() == tx_driver::pair_mask(dp_local, dm_local)
                &&& r.rx_driver().dp() == dp_local
                &&& r.rx_driver().dm() == dm_local
                &&& r.rx_driver().detector_origin() == edge_origin
                &&& r.rx_driver().decoder_origin() == decoder_origin
            }),
    {
        let gpio_high_window = configure_pio_gpio_base(chip, dp, dm);
        let tx = TxDriver::init(dp, dm, gpio_high_window);
        let rx = RxDriver::init(edge_origin, decoder_origin, dp, dm, gpio_high_window);
        Bus {
            speed: Speed::Full,
            attached: false,
            debounce: 0,
            frame: 0,
            last_activity: now,
            last_sof: now,
            pins: pin_setup(pulldown),
            tx,
            rx,
        }
    }

    /// How both pins are to be configured.
    pub fn pins(&self) -> (pins: PinSetup)
        ensures
            pins == self@.pins,
    {
        self.pins
    }

    /// The transmit driver of the bus.
    pub fn tx(&self) -> (tx: &TxDriver)
        ensures
            *tx == self.tx_driver(),
    {
        &self.tx
    }

    /// The receive driver of the bus.
    pub fn rx(&self) -> (rx: &RxDriver)
        ensures
            *rx == self.rx_driver(),
    {
        &self.rx
    }

    /// Sense the attached device speed from the idle line state.
    ///
    /// A full-speed device pulls D+ high; a low-speed device pulls D- high
    /// (USB 2.0 §7.1.5.1). Both GPIO inputs are inverted for the RX PIO programs,
    /// so a real high level reads as `false`.
    /// Returns `None` for SE0/no-device or transient invalid states; callers use
    /// [`Self::poll_device_event`] to debounce that raw state.
    pub fn detect_speed(dp_input: bool, dm_input: bool) -> (speed: Option<Speed>)
        ensures
            speed == sensed_speed(dp_input, dm_input),
    {
        let dp_high = !dp_input;  // real D+ high (inverted input reads 0)
        let dm_high = !dm_input;  // real D- high
        match (dp_high, dm_high) {
            (true, false) => Some(Speed::Full),  // D+ pulled up: full-speed device
            (false, true) => Some(Speed::Low),  // D- pulled up: low-speed device
            _ => None,  // SE0 (no device) or transient/invalid
        }
    }

    /// Take a speed, and say how both sides are configured for it.
    pub fn set_speed(&mut self, speed: Speed) -> (setup: (TxSetup, RxSetup))
        ensures
            final(self)@ == (PortState { speed, ..old(self)@ }),
            final(self).rx_driver() == old(self).rx_driver(),
            final(self).tx_driver().dp() == old(self).tx_driver().dp(),
            final(self).tx_driver().dm() == old(self).tx_driver().dm(),
            final(self).tx_driver().pin_mask() == old(self).tx_driver().pin_mask(),
            configured(final(self).tx_driver(), final(self).rx_driver(), speed, setup.0, setup.1),
    {
        self.speed = speed;
        let tx = self.tx.set_speed(speed);
        let rx = self.rx.set_speed(speed);
        (tx, rx)
    }

    /// Drive a single SOF frame (keep-alive). Advances the internal frame counter.
    ///
    /// Returns the packet to transmit.
    pub fn sof(&mut self, now: u32) -> (words: [u32; 3])
        requires
            old(self).wf(),
        ensures
            final(self).wf(),
            final(self)@ == kept_alive(old(self)@, Keepalive::Sof, now),
            final(self).tx_driver() == old(self).tx_driver(),
            final(self).rx_driver() == old(self).rx_driver(),
            words@ == line_code::packet_words(encoding::sof_packet(old(self)@.frame)),
            words@ == sof_words(old(self)@),
    {
        self.last_sof = now;
        self.mark_activity(now);
        let sof = build_sof(self.frame);
        self.frame = advance_frame(self.frame);
        sof
    }

    /// Low-speed keep-alive: send a single low-speed **EOP** via the TX player. Encoding
    /// an empty payload yields just `[SE0, COMP]`, so the player drives SE0 for its EOP
    /// slot (8 SM cycles, **1.33 µs at the LS clock, exactly 2 LS bit-times**), then
    /// releases. A correct keep-alive (USB 2.0 §7.1.7.4 / §11.8.4.1); LS devices
    /// have no SOF, so this per-frame EOP is what keeps them awake and gives them a
    /// bus-derived frame timebase.
    ///
    /// The precise width matters because reset detection can begin after roughly
    /// 2.5 µs of SE0 (T_DETRST, USB 2.0 table 7-14). Letting the PIO player time
    /// the EOP from the low-speed divider keeps it at two bit-times.
    ///
    /// Returns the packet to transmit; activity is marked again when it is out.
    pub fn ls_keepalive(&mut self, now: u32) -> (words: [u32; 1])
        ensures
            final(self)@ == kept_alive(old(self)@, Keepalive::LowSpeed, now),
            final(self).tx_driver() == old(self).tx_driver(),
            final(self).rx_driver() == old(self).rx_driver(),
            words@ == line_code::packet_words(Seq::empty()),
    {
        self.mark_activity(now);
        proof {
            encoding::lemma_keepalive_packet();
        }
        LS_KEEPALIVE_PACKET
    }

    /// Decide which keep-alive is due at the time `now`.
    pub fn keepalive(&self, now: u32) -> (due: Keepalive)
        ensures
            due == due_keepalive(self@, now),
    {
        if !self.attached {
            return Keepalive::NotDue;
        }
        match self.speed {
            Speed::Full => if elapsed_us(self.last_sof, now) >= FRAME_INTERVAL_US {
                Keepalive::Sof
            } else {
                Keepalive::NotDue
            },
            Speed::Low => if elapsed_us(self.last_activity, now) >= FRAME_INTERVAL_US {
                Keepalive::LowSpeed
            } else {
                Keepalive::NotDue
            },
            _ => Keepalive::NotDue,  // only FS and LS are supported by the PIO host transport
        }
    }

    /// Debounce one sample of the root-port line state.
    ///
    /// A connected event leaves reset to the caller so adapters can keep the
    /// shared bus locked across the state transition and reset, while releasing
    /// it between ordinary debounce samples.
    pub fn poll_device_event(&mut self, speed: Option<Speed>) -> (r: Option<PortEvent>)
        requires
            old(self).wf(),
        ensures
            final(self).wf(),
            final(self)@ == sampled(old(self)@, speed),
            match r {
                Some(event) => sample_event(old(self)@, speed) == Some(reported(event)),
                None => sample_event(old(self)@, speed) is None,
            },
            r matches Some(PortEvent::Connected { speed, tx, rx }) ==> configured(
                final(self).tx_driver(),
                final(self).rx_driver(),
                speed,
                tx,
                rx,
            ),
            r matches Some(PortEvent::Disconnected { release }) ==> release == (PioOp::Exec {
                sm: TX_SM,
                instr: SET_PINDIRS_IN,
            }),
            !(r matches Some(PortEvent::Connected { speed, tx, rx })) ==> final(self).tx_driver() == old(
                self,
            ).tx_driver(),
            final(self).tx_driver().dp() == old(self).tx_driver().dp(),
            final(self).tx_driver().dm() == old(self).tx_driver().dm(),
            final(self).tx_driver().pin_mask() == old(self).tx_driver().pin_mask(),
            final(self).rx_driver() == old(self).rx_driver(),
    {
        match speed {
            Some(_) => {
                self.debounce = if self.debounce < DEBOUNCE_CAP {
                    self.debounce + 1
                } else {
                    DEBOUNCE_CAP
                };
            },
            None => {
                self.debounce = if self.debounce > 0 {
                    self.debounce - 1
                } else {
                    0
                };
            },
        }
        if !self.attached && self.debounce >= DEBOUNCE_FRAMES {
            if let Some(speed) = speed {
                let (tx, rx) = self.set_speed(speed);
                self.attached = true;
                self.debounce = DEBOUNCE_CAP;
                return Some(PortEvent::Connected { speed, tx, rx });
            }
        }
        if self.attached && self.debounce == 0 && speed.is_none() {
            self.attached = false;
            let release = self.tx.release_bus();
            return Some(PortEvent::Disconnected { release });
        }
        None
    }

    /// One look at the root port while waiting until it reports a debounced connection
    /// or disconnection: the change of the port, and what comes next.
    ///
    /// On connection the USB reset and reset recovery come before the event is reported,
    /// so callers can begin enumeration immediately.
    pub fn wait_for_device_event(&mut self, speed: Option<Speed>) -> (r: (Option<PortEvent>, WaitStep))
        requires
            old(self).wf(),
        ensures
            final(self).wf(),
            final(self)@ == sampled(old(self)@, speed),
            match r.0 {
                Some(event) => sample_event(old(self)@, speed) == Some(reported(event)),
                None => sample_event(old(self)@, speed) is None,
            },
            r.1 == step_after(sample_event(old(self)@, speed)),
            r.0 matches Some(PortEvent::Connected { speed, tx, rx }) ==> configured(
                final(self).tx_driver(),
                final(self).rx_driver(),
                speed,
                tx,
                rx,
            ),
            r.0 matches Some(PortEvent::Disconnected { release }) ==> release == (PioOp::Exec {
                sm: TX_SM,
                instr: SET_PINDIRS_IN,
            }),
            !(r.0 matches Some(PortEvent::Connected { speed, tx, rx })) ==> final(self).tx_driver()
                == old(self).tx_driver(),
            final(self).tx_driver().dp() == old(self).tx_driver().dp(),
            final(self).tx_driver().dm() == old(self).tx_driver().dm(),
            final(self).tx_driver().pin_mask() == old(self).tx_driver().pin_mask(),
            final(self).rx_driver() == old(self).rx_driver(),
    {
        let event = self.poll_device_event(speed);
        let step = match &event {
            Some(PortEvent::Connected { speed, .. }) => WaitStep::ResetThenReport(
                DeviceEvent::Connected(*speed),
            ),
            Some(PortEvent::Disconnected { .. }) => WaitStep::Report(DeviceEvent::Disconnected),
            None => WaitStep::NextFrame,
        };
        (event, step)
    }

    /// Step `i` of a bus reset; `None` behind the last step.
    pub fn bus_reset(i: usize) -> (step: Option<ResetStep>)
        ensures
            step == tx_driver::step_at(reset_steps(), i as int),
    {
        if i == 0 {
            Some(ResetStep::DriveSe0)
        } else if i == 1 {
            Some(ResetStep::HoldUs(RESET_SE0_US))
        } else if i == 2 {
            Some(ResetStep::Release)
        } else if (i - 3) / 2 < RESET_RECOVERY_FRAMES as usize {
            if (i - 3) % 2 == 0 {
                Some(ResetStep::Keepalive)
            } else {
                Some(ResetStep::WaitFrame)
            }
        } else {
            None
        }
    }

    /// Record that a packet was just transmitted.
    ///
    /// Any bus activity (SOF, keep-alive, or a transaction's token/DATA) resets
    /// the attached device's 3 ms suspend timer (USB 2.0 §7.1.7.6), so every TX
    /// path stamps this.
    pub fn mark_activity(&mut self, now: u32)
        ensures
            final(self)@ == (PortState { last_activity: now, ..old(self)@ }),
            final(self)@ == active_at(old(self)@, now),
            final(self).tx_driver() == old(self).tx_driver(),
            final(self).rx_driver() == old(self).rx_driver(),
    {
        self.last_activity = now;
    }
}

/// The state behind a sequence of samples, one per frame.
pub open spec fn after_samples(state: PortState, samples: Seq<Option<Speed>>) -> PortState
    decreases samples.len(),
{
    if samples.len() == 0 {
        state
    } else {
        sampled(after_samples(state, samples.drop_last()), samples.last())
    }
}

/// How many of the samples saw a device.
pub open spec fn times_seen(samples: Seq<Option<Speed>>) -> nat
    decreases samples.len(),
{
    if samples.len() == 0 {
        0
    } else {
        times_seen(samples.drop_last()) + (if samples.last() is Some {
            1nat
        } else {
            0nat
        })
    }
}

/// A state that a port can be in.
pub open spec fn port_state_wf(state: PortState) -> bool {
    &&& 0 <= state.debounce <= DEBOUNCE_CAP
    &&& state.attached ==> state.debounce > 0
    &&& !state.attached ==> state.debounce < DEBOUNCE_FRAMES
}

/// Connections and disconnections alternate: a port reports a connection only when
/// no device is attached, which attaches one at the reported speed, and a
/// disconnection only when one is, which detaches it. Without an event both stay.
pub proof fn law_events_alternate(state: PortState, sample: Option<Speed>)
    ensures
        match sample_event(state, sample) {
            Some(DeviceEvent::Connected(speed)) => !state.attached && sampled(state, sample).attached
                && sampled(state, sample).speed == speed && sample == Some(speed),
            Some(DeviceEvent::Disconnected) => state.attached && !sampled(state, sample).attached
                && sample is None,
            None => sampled(state, sample).attached == state.attached && sampled(state, sample).speed
                == state.speed,
        },
{
}

/// A device is not considered attached before it was seen in 15 frames.
pub proof fn law_attach_takes_debounce_frames(state: PortState, samples: Seq<Option<Speed>>)
    requires
        state.debounce == 0,
        !state.attached,
        times_seen(samples) < DEBOUNCE_FRAMES,
    ensures
        !after_samples(state, samples).attached,
        0 <= after_samples(state, samples).debounce <= times_seen(samples),
    decreases samples.len(),
{
    if samples.len() > 0 {
        law_attach_takes_debounce_frames(state, samples.drop_last());
    }
}

/// Fifteen frames in a row that see a device attach it, the last of them, and fill the
/// accumulator.
pub proof fn law_steady_device_attaches(state: PortState, samples: Seq<Option<Speed>>, k: nat)
    requires
        port_state_wf(state),
        state.debounce == 0,
        k <= DEBOUNCE_FRAMES,
        k <= samples.len(),
        forall|i: int| 0 <= i < k ==> samples[i] is Some,
    ensures
        after_samples(state, samples.take(k as int)).debounce == (if k == DEBOUNCE_FRAMES {
            DEBOUNCE_CAP as nat
        } else {
            k
        }),
        after_samples(state, samples.take(k as int)).attached == (k == DEBOUNCE_FRAMES),
        k == DEBOUNCE_FRAMES ==> after_samples(state, samples.take(k as int)).speed == samples[k - 1]->0,
    decreases k,
{
    if k > 0 {
        let t = samples.take(k as int);
        law_steady_device_attaches(state, samples, (k - 1) as nat);
        assert(t.drop_last() =~= samples.take(k - 1));
    } else {
        assert(samples.take(0).len() == 0);
    }
}

/// An attached device stays attached until it was not seen in as many frames in a
/// row as the accumulator stands at, and is detached then: at most 60 frames.
pub proof fn law_detach_takes_accumulated_frames(state: PortState, k: nat)
    requires
        port_state_wf(state),
        state.attached,
        k <= state.debounce,
    ensures
        ({
            let after = after_samples(state, Seq::new(k, |i: int| None));
            &&& after.debounce == state.debounce - k
            &&& after.attached == (k < state.debounce)
        }),
        state.debounce <= DEBOUNCE_CAP,
    decreases k,
{
    let samples: Seq<Option<Speed>> = Seq::new(k, |i: int| None);
    if k > 0 {
        law_detach_takes_accumulated_frames(state, (k - 1) as nat);
        assert(samples.drop_last() =~= Seq::new((k - 1) as nat, |i: int| None));
    }
}

/// A device becomes attached with a full accumulator.
pub proof fn law_attaching_fills_accumulator(state: PortState, sample: Option<Speed>)
    requires
        sample_event(state, sample) matches Some(DeviceEvent::Connected(_)),
    ensures
        sampled(state, sample).attached,
        sampled(state, sample).debounce == DEBOUNCE_CAP,
{
}

/// A device is not considered detached before it was not seen in 60 frames since it
/// attached, or since the accumulator was full.
pub proof fn law_detach_takes_unplugged_frames(state: PortState, samples: Seq<Option<Speed>>)
    requires
        state.attached,
        state.debounce == DEBOUNCE_CAP,
        samples.len() - times_seen(samples) < DEBOUNCE_CAP,
    ensures
        after_samples(state, samples).attached,
        after_samples(state, samples).speed == state.speed,
        DEBOUNCE_CAP - (samples.len() - times_seen(samples)) <= after_samples(state, samples).debounce
            <= DEBOUNCE_CAP,
    decreases samples.len(),
{
    if samples.len() > 0 {
        law_detach_takes_unplugged_frames(state, samples.drop_last());
    }
}

/// How many more of the samples did not see a device than did.
pub open spec fn net_absence(samples: Seq<Option<Speed>>) -> int {
    samples.len() - 2 * times_seen(samples)
}

/// The number of samples behind which the accumulator was last full.
pub open spec fn last_full(state: PortState, samples: Seq<Option<Speed>>) -> nat
    decreases samples.len(),
{
    if samples.len() == 0 || after_samples(state, samples).debounce == DEBOUNCE_CAP {
        samples.len()
    } else {
        last_full(state, samples.drop_last())
    }
}

/// A device that was attached up to the last sample stays attached until 60 samples
/// more did not see it than did since the accumulator was last full, and is detached
/// then.
pub proof fn law_detach_takes_net_absence(state: PortState, samples: Seq<Option<Speed>>)
    requires
        state.attached,
        state.debounce == DEBOUNCE_CAP,
        forall|k: int| 0 <= k < samples.len() ==> (#[trigger] after_samples(state, samples.take(k))).attached,
    ensures
        ({
            let i = last_full(state, samples) as int;
            let absence = net_absence(samples.skip(i));
            &&& 0 <= i <= samples.len()
            &&& after_samples(state, samples.take(i)).debounce == DEBOUNCE_CAP
            &&& after_samples(state, samples).debounce == DEBOUNCE_CAP - absence
            &&& after_samples(state, samples).attached == (absence < DEBOUNCE_CAP)
        }),
    decreases samples.len(),
{
    let n = samples.len() as int;
    assert(samples.take(n) =~= samples);
    if after_samples(state, samples).debounce == DEBOUNCE_CAP {
        assert(samples.skip(n) =~= Seq::empty());
        if n > 0 {
            assert(after_samples(state, samples.take(n - 1)).attached);
            assert(samples.take(n - 1) =~= samples.drop_last());
        }
    } else {
        let less = samples.drop_last();
        assert(after_samples(state, samples.take(n - 1)).attached);
        assert(samples.take(n - 1) =~= less);
        assert forall|k: int| 0 <= k < less.len() implies (#[trigger] after_samples(
            state,
            less.take(k),
        )).attached by {
            assert(less.take(k) =~= samples.take(k));
        }
        law_detach_takes_net_absence(state, less);
        let i = last_full(state, less) as int;
        assert(less.take(i) =~= samples.take(i));
        assert(samples.skip(i).drop_last() =~= less.skip(i));
        assert(samples.skip(i).last() == samples.last());
    }
}

/// Every state that samples lead to from a good one is good.
pub proof fn law_samples_keep_state_wf(state: PortState, samples: Seq<Option<Speed>>)
    requires
        port_state_wf(state),
    ensures
        port_state_wf(after_samples(state, samples)),
    decreases samples.len(),
{
    if samples.len() > 0 {
        law_samples_keep_state_wf(state, samples.drop_last());
    }
}

/// An attached low- or full-speed device is sent a keep-alive of its own speed, and
/// behind it none is due until a frame interval has passed, when one is due again.
pub proof fn law_keepalive_every_frame(state: PortState, sent: u32, now: u32)
    requires
        state.attached,
        due_keepalive(state, sent) != Keepalive::NotDue,
    ensures
        ({
            let after = kept_alive(state, due_keepalive(state, sent), sent);
            &&& due_keepalive(state, sent) == (if state.speed is Full {
                Keepalive::Sof
            } else {
                Keepalive::LowSpeed
            })
            &&& due_keepalive(after, now) == (if ram::elapsed(sent, now) < FRAME_INTERVAL_US {
                Keepalive::NotDue
            } else {
                due_keepalive(state, sent)
            })
        }),
{
}

/// An idle line of a low- or full-speed device is sensed as that speed; a line on which
/// both or none of the wires is high is no device.
pub proof fn law_idle_line_shows_speed(speed: Speed, level: bool)
    ensures
        !(speed is High) ==> sensed_speed(
            !rx_timing::dp_high(line_code::SYM_J, speed),
            !rx_timing::dm_high(line_code::SYM_J, speed),
        ) == Some(speed),
        sensed_speed(level, level) is None,
{
}

/// What one sample of the lines does to the port. Seeing a device counts up and not
/// seeing one counts down, within 0 and 60. It attaches a device exactly when none is
/// attached and the count reaches 15, and that fills the count; it detaches one exactly
/// when the count reaches 0. Nothing else of the port changes.
pub proof fn law_sample_effect(state: PortState, sample: Option<Speed>)
    requires
        port_state_wf(state),
    ensures
        ({
            let after = sampled(state, sample);
            let event = sample_event(state, sample);
            let connects = !state.attached && sample is Some && state.debounce >= 14;
            let disconnects = state.attached && sample is None && state.debounce == 1;
            &&& event is Some <==> connects || disconnects
            &&& connects ==> event == Some(DeviceEvent::Connected(sample->0)) && after.attached
                && after.speed == sample->0 && after.debounce == 60
            &&& disconnects ==> event == Some(DeviceEvent::Disconnected) && !after.attached && after.debounce
                == 0 && after.speed == state.speed
            &&& event is None ==> after.attached == state.attached && after.speed == state.speed
            &&& event is None && sample is Some && state.debounce < 60 ==> after.debounce == state.debounce + 1
            &&& event is None && sample is Some && state.debounce == 60 ==> after.debounce == 60
            &&& event is None && sample is None && state.debounce > 0 ==> after.debounce == state.debounce - 1
            &&& event is None && sample is None && state.debounce == 0 ==> after.debounce == 0
            &&& after.frame == state.frame
            &&& after.last_activity == state.last_activity
            &&& after.last_sof == state.last_sof
            &&& after.pins == state.pins
        }),
{
}

/// Behind a look at the port a connection is followed by a reset before it is reported,
/// at every speed; what is reported without one is a disconnection. Both carry the event
/// of the look, and without an event the port is looked at again.
pub proof fn law_connection_is_reported_behind_reset(state: PortState, sample: Option<Speed>)
    requires
        port_state_wf(state),
    ensures
        ({
            let step = step_after(sample_event(state, sample));
            &&& sampled(state, sample).attached && !state.attached <==> step is ResetThenReport
            &&& step is ResetThenReport ==> sample is Some && step == WaitStep::ResetThenReport(
                DeviceEvent::Connected(sample->0),
            )
            &&& !sampled(state, sample).attached && state.attached <==> step is Report
            &&& step is Report ==> step == WaitStep::Report(DeviceEvent::Disconnected)
        }),
{
}

/// Whatever event comes up, a connection is never reported without a reset.
pub proof fn law_only_disconnections_skip_reset(event: Option<DeviceEvent>, speed: Speed)
    ensures
        step_after(Some(DeviceEvent::Connected(speed))) == WaitStep::ResetThenReport(
            DeviceEvent::Connected(speed),
        ),
        step_after(event) is Report <==> event == Some(DeviceEvent::Disconnected),
        step_after(event) is NextFrame <==> event is None,
{
}

/// A port event tells of the change that it stands for.
pub proof fn law_reported_event(event: PortEvent)
    ensures
        event is Connected ==> reported(event) == DeviceEvent::Connected(event->Connected_speed),
        event is Disconnected <==> reported(event) is Disconnected,
{
}

/// When a keep-alive is due: never without a device or at another speed than low or full;
/// to a full-speed device once a millisecond has gone by since the last SOF, whatever else
/// was sent; to a low-speed device once one has gone by since anything was sent.
pub proof fn law_keepalive_due(state: PortState, now: u32)
    ensures
        due_keepalive(state, now) is Sof <==> state.attached && state.speed is Full && ram::elapsed(
            state.last_sof,
            now,
        ) >= 1000,
        due_keepalive(state, now) is LowSpeed <==> state.attached && state.speed is Low && ram::elapsed(
            state.last_activity,
            now,
        ) >= 1000,
{
}

/// A keep-alive stamps the activity; only an SOF counts a frame and stamps the SOF.
/// Nothing else of the port changes.
pub proof fn law_keepalive_effect(state: PortState, sent: Keepalive, now: u32)
    requires
        state.frame < FRAME_NUMBERS,
    ensures
        ({
            let after = kept_alive(state, sent, now);
            &&& after.last_activity == (if sent is NotDue {
                state.last_activity
            } else {
                now
            })
            &&& after.last_sof == (if sent is Sof {
                now
            } else {
                state.last_sof
            })
            &&& sent is Sof ==> after.frame == (state.frame + 1) % 2048
            &&& !(sent is Sof) ==> after.frame == state.frame
            &&& after.speed == state.speed && after.attached == state.attached
            &&& after.debounce == state.debounce && after.pins == state.pins
        }),
{
}

/// A reset drives SE0 for 15 ms and then lets 15 frames go by, each with its keep-alive
/// and nothing else.
pub proof fn law_reset_schedule(i: int)
    ensures
        reset_steps().len() == 33,
        reset_steps()[0] is DriveSe0,
        reset_steps()[1] == ResetStep::HoldUs(15_000),
        reset_steps()[2] is Release,
        3 <= i < 33 ==> (reset_steps()[i] is Keepalive <==> i % 2 == 1),
        3 <= i < 33 ==> (reset_steps()[i] is WaitFrame <==> i % 2 == 0),
{
}

/// The pull-downs are on exactly if they are to be internal, and the inputs are always
/// inverted, as the programs and the speed sensing expect them.
pub proof fn law_pin_setup(pulldown: Pulldown)
    ensures
        pin_setup_for(pulldown).pull_down <==> pulldown == Pulldown::Internal,
        pin_setup_for(pulldown).invert_input,
{
}

/// Taking a speed configures both sides for the same line: the player drives in state J
/// the wire that the receiver samples.
pub proof fn law_both_sides_agree(tx: TxDriver, rx: RxDriver, speed: Speed, tx_setup: TxSetup, rx_setup: RxSetup)
    requires
        configured(tx, rx, speed, tx_setup, rx_setup),
        tx.dp() != tx.dm(),
        rx.dp() != rx.dm(),
    ensures
        ({
            let pair = tx_driver::ascending(tx.dp(), tx.dm());
            let j = crate::tx_pio::side_value(tx_setup.program.code@[line_code::SYM_J as int]);
            &&& crate::tx_pio::side_value(tx.start_instr()) == j
            &&& rx_setup.detector.in_base == rx.dp() <==> tx_driver::pin_driven(j, pair, tx.dp())
            &&& rx_setup.detector.in_base == rx.dm() <==> tx_driver::pin_driven(j, pair, tx.dm())
            &&& rx_setup.detector.clock_hz == Some((2 * tx_setup.clock_hz) as u32)
        }),
{
    tx_driver::law_player_polarity(tx.dp(), tx.dm(), speed);
}

/// A new port has no device, and none attaches before it was seen 15 times; nothing is due
/// on it, and its frames are numbered from zero.
pub proof fn law_new_port(pulldown: Pulldown, now: u32, later: u32, samples: Seq<Option<Speed>>)
    requires
        times_seen(samples) < 15,
    ensures
        ({
            let port = new_port(pulldown, now);
            &&& port_state_wf(port)
            &&& !port.attached && port.debounce == 0 && port.frame == 0
            &&& port.last_activity == now && port.last_sof == now
            &&& due_keepalive(port, later) is NotDue
            &&& port.pins.invert_input && (port.pins.pull_down <==> pulldown is Internal)
            &&& !after_samples(port, samples).attached
        }),
{
    law_attach_takes_debounce_frames(new_port(pulldown, now), samples);
}

/// A packet puts the keep-alive of a low-speed device off by a frame, but no SOF, and
/// changes nothing else of the port.
pub proof fn law_activity(state: PortState, sent: u32, now: u32)
    ensures
        ({
            let after = active_at(state, sent);
            &&& after.last_activity == sent
            &&& ram::elapsed(sent, now) < 1000 ==> !(due_keepalive(after, now) is LowSpeed)
            &&& due_keepalive(after, now) is Sof <==> due_keepalive(state, now) is Sof
            &&& after == (PortState { last_activity: sent, ..state })
        }),
{
}

/// A device decodes the port's frame number from an SOF.
#[verifier::spinoff_prover]
proof fn lemma_sof_words(state: PortState)
    requires
        state.frame < FRAME_NUMBERS,
    ensures
        encoding::carries_field(line_code::line_decode(sof_words(state)), 0xA5, state.frame as int),
{
    encoding::law_sof_carries_frame_number(state.frame);
    assert(state.frame as int % 2048 == state.frame as int);
}

/// A device decodes the port's frame number from an SOF, and from the next SOF the number
/// behind it.
#[verifier::spinoff_prover]
pub proof fn law_sofs_number_frames(state: PortState, now: u32)
    requires
        state.frame < FRAME_NUMBERS,
    ensures
        encoding::carries_field(line_code::line_decode(sof_words(state)), 0xA5, state.frame as int),
        encoding::carries_field(
            line_code::line_decode(sof_words(kept_alive(state, Keepalive::Sof, now))),
            0xA5,
            (state.frame + 1) % 2048,
        ),
{
    lemma_sof_words(state);
    let after = kept_alive(state, Keepalive::Sof, now);
    lemma_sof_words(after);
    assert(after.frame as int == (state.frame + 1) % 2048);
}

} // verus!
