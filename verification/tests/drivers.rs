use rp_pio_usb_host::chip::{
    configure_pio_gpio_base, gpio_input_level, pins_fit_window, pio_local_pin, sio_gpio_bank,
    sio_gpio_bit, Chip,
};
use rp_pio_usb_host::clock::{pio_clkdiv_bits, pio_clkdiv_for, MAX_DIVIDER_BITS};
use rp_pio_usb_host::encoding::{build_sof, ACK_PACKET};
use rp_pio_usb_host::frame_counter::{advance_frame, FrameCounter};
use rp_pio_usb_host::pid::{USB_PID_DATA0, USB_PID_DATA1, USB_PID_NAK};
use rp_pio_usb_host::ram::{
    elapsed_us, pio_sm_disable, pio_sm_enable, register_flag, sm_mask, Join, PioOp, Shift,
};
use rp_pio_usb_host::rx_driver::{
    await_start, Receiver, RxDriver, RxEvent, RxMachine, RxPacketStatus, StartWait, DET_CLOCK_HZ_FS,
    DET_CLOCK_HZ_LS, RX_DRAIN_TIMEOUT_US, RX_SOP_TIMEOUT_US,
};
use rp_pio_usb_host::tx_driver::{
    TxDriver, TxStep, TxWait, TxWaitStep, TX_CLOCK_HZ_FS, TX_CLOCK_HZ_LS,
};
use rp_pio_usb_host::types::Speed;

fn transmit_steps(tx: &TxDriver, words: &[u32]) -> Vec<TxStep> {
    let mut steps = Vec::new();
    while let Some(step) = tx.transmit(words, steps.len()) {
        steps.push(step);
    }
    steps
}

fn pushed(steps: &[TxStep]) -> Vec<u32> {
    steps
        .iter()
        .filter_map(|s| match s {
            TxStep::Op(PioOp::Push { sm: 0, word }) => Some(*word),
            _ => None,
        })
        .collect()
}

const ENABLE_TX: TxStep = TxStep::Op(PioOp::Enable { sm: 0 });

#[test]
fn short_packets_are_queued_before_the_player_starts() {
    let tx = TxDriver::init(2, 3, false);
    let words = build_sof(7);
    let steps = transmit_steps(&tx, &words);
    assert_eq!(
        steps,
        vec![
            TxStep::Op(PioOp::Disable { sm: 0 }),
            TxStep::Op(PioOp::ClearFifos { sm: 0 }),
            TxStep::Op(PioOp::Restart { sm: 0 }),
            TxStep::Op(PioOp::Exec { sm: 0, instr: 0x0804 }),
            TxStep::Op(PioOp::Push { sm: 0, word: words[0] }),
            TxStep::Op(PioOp::Push { sm: 0, word: words[1] }),
            TxStep::Op(PioOp::Push { sm: 0, word: words[2] }),
            TxStep::Op(PioOp::ClearIrq { flags: 1 }),
            ENABLE_TX,
            TxStep::AwaitDone,
        ]
    );
}

#[test]
fn long_packets_are_fed_under_a_critical_section() {
    let tx = TxDriver::init(2, 3, false);
    let words: Vec<u32> = (100..110).collect();
    let steps = transmit_steps(&tx, &words);
    assert_eq!(pushed(&steps), words);
    let enter = steps.iter().position(|s| *s == TxStep::EnterCritical).unwrap();
    assert_eq!(pushed(&steps[..enter]), words[..8].to_vec());
    assert_eq!(
        &steps[enter..],
        &[
            TxStep::EnterCritical,
            ENABLE_TX,
            TxStep::AwaitSpace,
            TxStep::Op(PioOp::Push { sm: 0, word: 108 }),
            TxStep::AwaitSpace,
            TxStep::Op(PioOp::Push { sm: 0, word: 109 }),
            TxStep::LeaveCritical,
            TxStep::AwaitDone,
        ]
    );
}

#[test]
fn every_transmission_queues_its_packet() {
    let tx = TxDriver::init(9, 8, false);
    for n in 0..=40u32 {
        let words: Vec<u32> = (0..n).map(|i| i.wrapping_mul(0x9e37_79b9)).collect();
        let steps = transmit_steps(&tx, &words);
        assert_eq!(pushed(&steps), words);
        assert_eq!(steps.iter().filter(|s| **s == ENABLE_TX).count(), 1);
        let start = steps.iter().position(|s| *s == ENABLE_TX).unwrap();
        assert_eq!(pushed(&steps[..start]).len(), words.len().min(8));
        assert_eq!(steps.last(), Some(&TxStep::AwaitDone));
    }
}

#[test]
fn player_polarity_follows_speed_and_wiring() {
    for (dp, dm) in [(4u8, 5u8), (5, 4)] {
        let mut tx = TxDriver::init(dp, dm, false);
        for (speed, clock) in [
            (Speed::Low, TX_CLOCK_HZ_LS),
            (Speed::Full, TX_CLOCK_HZ_FS),
        ] {
            let setup = tx.set_speed(speed);
            assert_eq!(setup.clock_hz, clock);
            let side = |slot: usize| (setup.program.code[slot] >> 11) & 3;
            let dp_bit = u16::from(dp > dm);
            let j_on_dp = (side(1) >> dp_bit) & 1 == 1;
            let j_on_dm = (side(1) >> (1 - dp_bit)) & 1 == 1;
            assert_eq!(j_on_dp, speed == Speed::Full);
            assert_eq!(j_on_dm, speed == Speed::Low);
            assert_eq!(side(3), 3 - side(1));
            assert_eq!(side(0), 0);
            let start = 0x0004 | (side(1) << 11);
            assert_eq!(tx.release_reset()[0], PioOp::Exec { sm: 0, instr: start });
        }
    }
}

#[test]
fn reset_signalling() {
    let tx = TxDriver::init(2, 3, false);
    assert_eq!(
        tx.drive_reset_se0(),
        [
            PioOp::Disable { sm: 0 },
            PioOp::Exec { sm: 0, instr: 0xe083 },
            PioOp::Exec { sm: 0, instr: 0xe000 },
        ]
    );
    assert_eq!(
        tx.release_reset(),
        [PioOp::Exec { sm: 0, instr: 0x0804 }, PioOp::Enable { sm: 0 }]
    );
    assert_eq!(tx.release_bus(), PioOp::Exec { sm: 0, instr: 0xe080 });
    assert_eq!(tx.start_tx(), PioOp::Enable { sm: 0 });
}

#[test]
fn ack_is_staged_and_the_bus_released_last() {
    let tx = TxDriver::init(3, 2, false);
    let mut ops = Vec::new();
    while let Some(op) = tx.prepare_ack_and_release_bus(ops.len()) {
        ops.push(op);
    }
    assert_eq!(
        ops,
        vec![
            PioOp::Disable { sm: 0 },
            PioOp::ClearFifos { sm: 0 },
            PioOp::Restart { sm: 0 },
            PioOp::Exec { sm: 0, instr: 0x1004 },
            PioOp::Push { sm: 0, word: ACK_PACKET[0] },
            PioOp::Push { sm: 0, word: ACK_PACKET[1] },
            PioOp::ClearIrq { flags: 1 },
            PioOp::Exec { sm: 0, instr: 0xe080 },
        ]
    );
    assert_eq!(tx.prepare_tx_packet(&[5, 6], 5), Some(PioOp::Push { sm: 0, word: 6 }));
    assert_eq!(tx.prepare_tx_packet(&[5, 6], 7), None);
}

#[test]
fn transmit_wait_ends_on_flag_release_or_timeout() {
    let tx = TxDriver::init(20, 21, true);
    assert!(!tx.wait(TxWait::Eop, 0xfe, 10, 60));
    assert!(tx.wait(TxWait::Eop, 0x01, 10, 10));
    assert!(tx.wait(TxWait::Eop, 0x00, 10, 61));
    // local pins 4 and 5
    assert!(!tx.wait(TxWait::Release, 0x10, 0, 0));
    assert!(!tx.wait(TxWait::Release, 0x20, 0, 50));
    assert!(tx.wait(TxWait::Release, 0xffff_ffcf, 0, 0));
    assert!(tx.wait(TxWait::Release, 0x30, 0xffff_fff0, 0x23));
}

#[test]
fn player_pins_are_in_ascending_order() {
    assert_eq!(TxDriver::init(2, 3, false).pin_pair(), (2, 3));
    let mut tx = TxDriver::init(33, 32, true);
    assert_eq!(tx.pin_pair(), (32, 33));
    tx.set_speed(Speed::Low);
    assert_eq!(tx.pin_pair(), (32, 33));
}

#[test]
fn transmit_waits_for_eop_then_release() {
    let mut steps = Vec::new();
    while let Some(step) = TxDriver::wait_steps(steps.len()) {
        steps.push(step);
    }
    assert_eq!(
        steps,
        vec![
            TxWaitStep::StartWindow,
            TxWaitStep::Await(TxWait::Eop),
            TxWaitStep::StartWindow,
            TxWaitStep::Await(TxWait::Release),
        ]
    );
}

#[test]
fn receive_setup_mirrors_the_pair_at_low_speed() {
    let rx = RxDriver::init(5, 22, 16, 17, true);
    for (speed, clock, j, k) in [
        (Speed::Full, DET_CLOCK_HZ_FS, 0u8, 1u8),
        (Speed::Low, DET_CLOCK_HZ_LS, 1, 0),
    ] {
        let setup = rx.set_speed(speed);
        assert_eq!(setup.stop, [PioOp::Disable { sm: 1 }, PioOp::Disable { sm: 2 }]);
        assert_eq!(
            setup.detector,
            RxMachine {
                clock_hz: Some(clock),
                fifo_join: Join::Duplex,
                shift_in: Shift { threshold: 8, left: true, auto_fill: false },
                in_base: j,
                jmp_pin: k,
            }
        );
        assert_eq!(
            setup.decoder,
            RxMachine {
                clock_hz: None,
                fifo_join: Join::RxOnly,
                shift_in: Shift { threshold: 8, left: false, auto_fill: true },
                in_base: j,
                jmp_pin: j,
            }
        );
        assert_eq!(
            setup.run,
            [
                PioOp::Exec { sm: 2, instr: 0xa0eb },
                PioOp::Exec { sm: 2, instr: 0xe020 },
                PioOp::Enable { sm: 1 },
                PioOp::Enable { sm: 2 },
            ]
        );
    }
}

#[test]
fn transmit_setup_parks_the_player_with_the_bus_released() {
    let mut tx = TxDriver::init(2, 3, false);
    let setup = tx.set_speed(Speed::Full);
    assert_eq!(setup.stop, PioOp::Disable { sm: 0 });
    assert_eq!(setup.fifo_join, Join::TxOnly);
    assert_eq!(setup.shift_out, Shift { threshold: 32, left: true, auto_fill: true });
    assert_eq!(
        setup.run,
        [PioOp::Enable { sm: 0 }, PioOp::Exec { sm: 0, instr: 0xe080 }]
    );
}

#[test]
fn arming_restarts_both_receive_machines() {
    let rx = RxDriver::init(5, 22, 2, 3, false);
    assert_eq!(
        rx.prepare_for_receive(),
        [
            PioOp::Disable { sm: 1 },
            PioOp::Restart { sm: 1 },
            PioOp::Exec { sm: 1, instr: 5 },
            PioOp::Enable { sm: 1 },
            PioOp::Disable { sm: 2 },
            PioOp::ClearFifos { sm: 2 },
            PioOp::Restart { sm: 2 },
            PioOp::Exec { sm: 2, instr: 22 },
            PioOp::Exec { sm: 2, instr: 0xe020 },
            PioOp::ClearIrq { flags: 0x18 },
            PioOp::Enable { sm: 2 },
        ]
    );
    assert_eq!(rx.start_receive(), PioOp::ClearIrq { flags: 0x1c });
}

#[test]
fn start_of_packet_window() {
    assert_eq!(await_start(100, 100, 0x08), StartWait::Started);
    assert_eq!(await_start(100, 100 + RX_SOP_TIMEOUT_US - 1, 0xf7), StartWait::Waiting);
    assert_eq!(await_start(100, 100 + RX_SOP_TIMEOUT_US, 0x08), StartWait::NoReply);
    assert_eq!(await_start(0xffff_ffff, 6, 0x08), StartWait::Started);
}

fn capture<const N: usize>(bytes: &[u8]) -> Receiver<N> {
    let mut r = Receiver::new([0u8; N], 0);
    for b in bytes {
        let word = (u32::from(*b) << 24) | 0x00ab_cdef;
        assert_eq!(r.receive(RxEvent::Word { word, now: 1 }), None);
    }
    r
}

const EOP: RxEvent = RxEvent::Idle { irq: 0x04, now: 1 };

#[test]
fn intact_data_is_valid() {
    let pkt = [0x80, USB_PID_DATA1, b'a', b'b', b'c', 0x1a, 0x2c];
    let crc = rp_pio_usb_host::crc::calc_crc16(b"abc");
    let mut good = pkt;
    good[5] = (crc & 0xff) as u8;
    good[6] = (crc >> 8) as u8;
    let mut r = capture::<7>(&good);
    assert_eq!(r.receive(EOP), Some((7, RxPacketStatus::ValidData)));
    assert_eq!(r.buffer(), &good);
    good[2] ^= 0x10;
    let mut r = capture::<7>(&good);
    assert_eq!(r.receive(EOP), Some((7, RxPacketStatus::Invalid)));
}

#[test]
fn zero_length_data_is_valid() {
    let mut r = capture::<8>(&[0x80, USB_PID_DATA0, 0, 0]);
    assert_eq!(r.receive(EOP), Some((4, RxPacketStatus::ValidData)));
}

#[test]
fn good_crc_without_a_data_pid_is_not_valid() {
    let mut r = capture::<8>(&[0x80, USB_PID_NAK, 0, 0]);
    assert_eq!(r.receive(EOP), Some((4, RxPacketStatus::Invalid)));
}

#[test]
fn handshakes_are_not_valid_data() {
    let mut r = capture::<8>(&[0x80, USB_PID_NAK]);
    assert_eq!(r.receive(EOP), Some((2, RxPacketStatus::Invalid)));
    let mut r = capture::<8>(&[0x80, USB_PID_DATA0, 0]);
    assert_eq!(r.receive(EOP), Some((3, RxPacketStatus::Invalid)));
}

#[test]
fn overflowed_packets_are_never_valid() {
    // The first four bytes alone would be a valid packet.
    let mut r = capture::<4>(&[0x80, USB_PID_DATA0, 0, 0, 0]);
    assert_eq!(r.receive(EOP), Some((4, RxPacketStatus::Overflow)));
    let mut r = capture::<4>(&[0x80, USB_PID_DATA0, 0, 0, 0]);
    let late = RxEvent::Idle { irq: 0, now: 9 };
    assert_eq!(r.receive(late), Some((4, RxPacketStatus::Overflow)));
    assert_eq!(r.buffer(), &[0x80, USB_PID_DATA0, 0, 0]);
}

#[test]
fn capture_without_eop_drains() {
    let mut r = capture::<8>(&[0x80, USB_PID_DATA0, 0, 0]);
    let quiet = RxEvent::Idle { irq: 0xfb, now: 1 + RX_DRAIN_TIMEOUT_US };
    assert_eq!(r.receive(quiet), None);
    let late = RxEvent::Idle { irq: 0xfb, now: 2 + RX_DRAIN_TIMEOUT_US };
    assert_eq!(r.receive(late), Some((4, RxPacketStatus::Invalid)));
    let mut empty = Receiver::new([0u8; 8], 0xffff_fffe);
    assert_eq!(empty.receive(RxEvent::Idle { irq: 0, now: 6 }), Some((0, RxPacketStatus::Invalid)));
}

#[test]
fn clock_dividers() {
    assert_eq!(pio_clkdiv_bits(125_000_000, TX_CLOCK_HZ_FS), 667);
    assert_eq!(pio_clkdiv_bits(120_000_000, DET_CLOCK_HZ_FS), 320);
    assert_eq!(pio_clkdiv_bits(96_000_000, DET_CLOCK_HZ_FS), 256);
    assert_eq!(pio_clkdiv_bits(96_000_000, TX_CLOCK_HZ_LS), 16 * 256);
}

#[test]
fn fixed_point_divider_has_these_bits() {
    assert_eq!(pio_clkdiv_for(125_000_000, TX_CLOCK_HZ_FS).to_bits(), 667);
    let d = pio_clkdiv_for(120_000_000, DET_CLOCK_HZ_FS);
    assert_eq!(d.to_num::<u32>(), 1);
    assert_eq!(d.frac().to_bits(), 64);
    assert_eq!(pio_clkdiv_for(65_536, 1).to_bits(), 0x0100_0000);
}

#[test]
fn dividers_round_to_the_nearest() {
    for clk in [96_000_000u32, 121_000_000, 125_000_000, 133_000_000, 150_000_000, 4_000_000_000] {
        for target in [TX_CLOCK_HZ_FS, TX_CLOCK_HZ_LS, DET_CLOCK_HZ_FS, DET_CLOCK_HZ_LS] {
            let bits = pio_clkdiv_bits(clk, target) as i64;
            let error = 2 * (bits * i64::from(target) - 256 * i64::from(clk));
            assert!(error.abs() <= i64::from(target));
            assert!(bits >= 256 && bits as u64 <= MAX_DIVIDER_BITS);
        }
    }
}

#[test]
fn usb_rates() {
    assert_eq!(TX_CLOCK_HZ_FS / 4, 12_000_000);
    assert_eq!(TX_CLOCK_HZ_LS / 4, 1_500_000);
    assert_eq!(DET_CLOCK_HZ_FS / 8, 12_000_000);
    assert_eq!(DET_CLOCK_HZ_LS / 8, 1_500_000);
}

#[test]
fn frame_numbers_wrap_after_eleven_bits() {
    let mut c = FrameCounter::new();
    for n in 1..0x800u16 {
        assert_eq!(c.next(), n);
    }
    assert_eq!(c.next(), 0);
    assert_eq!(c.next(), 1);
    assert_eq!(advance_frame(0x7ff), 0);
    assert_eq!(advance_frame(0xffff), 0);
}

#[test]
fn gpio_registers() {
    assert_eq!(sio_gpio_bank(Chip::Rp2040, 29), 0);
    assert_eq!(sio_gpio_bit(Chip::Rp2040, 29), 29);
    assert_eq!(sio_gpio_bank(Chip::Rp235x, 40), 1);
    assert_eq!(sio_gpio_bit(Chip::Rp235x, 40), 8);
    assert!(gpio_input_level(Chip::Rp235x, 40, 0x100));
    assert!(!gpio_input_level(Chip::Rp235x, 40, !0x100));
    assert!(gpio_input_level(Chip::Rp2040, 3, 0x8));
}

#[test]
fn gpio_windows() {
    assert!(!configure_pio_gpio_base(Chip::Rp2040, 0, 1));
    assert!(!configure_pio_gpio_base(Chip::Rp235x, 30, 31));
    assert!(configure_pio_gpio_base(Chip::Rp235x, 31, 32));
    assert!(pins_fit_window(Chip::Rp235x, 46, 47));
    assert!(!pins_fit_window(Chip::Rp235x, 15, 40));
    assert!(pins_fit_window(Chip::Rp2040, 15, 16));
    assert_eq!(pio_local_pin(32, true), 16);
    assert_eq!(pio_local_pin(16, true), 0);
    assert_eq!(pio_local_pin(16, false), 16);
}

#[test]
fn state_machine_enables() {
    assert_eq!(sm_mask(2), 4);
    assert_eq!(pio_sm_enable(0b1001, 1), 0b1011);
    assert_eq!(pio_sm_enable(0b1011, 1), 0b1011);
    assert_eq!(pio_sm_disable(0b1011, 0), 0b1010);
    assert_eq!(pio_sm_disable(0b1010, 0), 0b1010);
    assert!(register_flag(0x04, 2));
    assert!(!register_flag(0xfb, 2));
}

#[test]
fn elapsed_time_wraps() {
    assert_eq!(elapsed_us(10, 25), 15);
    assert_eq!(elapsed_us(0xffff_fffe, 3), 5);
    assert_eq!(elapsed_us(7, 7), 0);
}
