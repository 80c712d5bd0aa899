use rp_pio_usb_host::bus::{
    pin_setup, Bus, Keepalive, PinSetup, PortEvent, ResetStep, WaitStep, DEBOUNCE_CAP,
    DEBOUNCE_FRAMES, FRAME_INTERVAL_US, RESET_RECOVERY_FRAMES, RESET_SE0_US,
};
use rp_pio_usb_host::chip::Chip;
use rp_pio_usb_host::encoding::{build_sof, LS_KEEPALIVE_PACKET};
use rp_pio_usb_host::ram::PioOp;
use rp_pio_usb_host::types::{DeviceEvent, Speed};
use rp_pio_usb_host::Pulldown;

fn bus() -> Bus {
    Bus::new(Chip::Rp2040, 2, 3, Pulldown::External, 5, 22, 0)
}

/// Feeds samples, one per frame, and gives the events with their frames.
fn events(bus: &mut Bus, samples: &[Option<Speed>]) -> Vec<(usize, DeviceEvent)> {
    let mut out = Vec::new();
    for (i, s) in samples.iter().enumerate() {
        match bus.poll_device_event(*s) {
            Some(PortEvent::Connected { speed, .. }) => out.push((i, DeviceEvent::Connected(speed))),
            Some(PortEvent::Disconnected { .. }) => out.push((i, DeviceEvent::Disconnected)),
            None => {}
        }
    }
    out
}

fn attached(speed: Speed) -> Bus {
    let mut b = bus();
    assert_eq!(events(&mut b, &[Some(speed); 15]).len(), 1);
    b
}

#[test]
fn speed_from_the_idle_lines() {
    // The inputs are inverted.
    assert_eq!(Bus::detect_speed(false, true), Some(Speed::Full));
    assert_eq!(Bus::detect_speed(true, false), Some(Speed::Low));
    assert_eq!(Bus::detect_speed(true, true), None);
    assert_eq!(Bus::detect_speed(false, false), None);
}

#[test]
fn device_attaches_in_the_fifteenth_frame() {
    let mut b = bus();
    let seen = [Some(Speed::Low); 20];
    assert_eq!(events(&mut b, &seen), vec![(14, DeviceEvent::Connected(Speed::Low))]);
}

#[test]
fn bouncing_contact_takes_longer() {
    let mut b = bus();
    let mut samples = vec![Some(Speed::Full); 14];
    samples.push(None);
    samples.extend([Some(Speed::Full); 2]);
    assert_eq!(events(&mut b, &samples), vec![(16, DeviceEvent::Connected(Speed::Full))]);
}

#[test]
fn device_seen_half_the_time_never_attaches() {
    let mut b = bus();
    for _ in 0..200 {
        assert!(b.poll_device_event(Some(Speed::Full)).is_none());
        assert!(b.poll_device_event(None).is_none());
    }
}

#[test]
fn device_seen_shortly_stays_attached_for_the_cap() {
    let mut b = attached(Speed::Full);
    for _ in 0..59 {
        assert!(b.poll_device_event(None).is_none());
    }
    assert!(matches!(b.poll_device_event(None), Some(PortEvent::Disconnected { .. })));
}

#[test]
fn device_seen_again_is_detached_later() {
    let mut b = attached(Speed::Low);
    let mut samples = vec![None; 40];
    samples.extend([Some(Speed::Low); 10]);
    samples.extend([None; 30]);
    assert_eq!(events(&mut b, &samples), vec![(79, DeviceEvent::Disconnected)]);
    // Full again in between: 60 more from there.
    let mut b = attached(Speed::Low);
    let mut samples = vec![None; 40];
    samples.extend([Some(Speed::Low); 50]);
    samples.extend([None; 60]);
    assert_eq!(events(&mut b, &samples), vec![(149, DeviceEvent::Disconnected)]);
}

#[test]
fn long_presence_does_not_delay_detaching() {
    let mut b = bus();
    let mut samples = vec![Some(Speed::Full); 1000];
    samples.extend([None; 100]);
    assert_eq!(
        events(&mut b, &samples),
        vec![(14, DeviceEvent::Connected(Speed::Full)), (1059, DeviceEvent::Disconnected)]
    );
    assert_eq!(DEBOUNCE_CAP, 60);
}

#[test]
fn events_alternate_over_replugging() {
    let mut b = bus();
    let mut samples = Vec::new();
    for speed in [Speed::Full, Speed::Low, Speed::Full] {
        samples.extend([Some(speed); 70]);
        samples.extend([None; 70]);
    }
    let kinds: Vec<DeviceEvent> = events(&mut b, &samples).into_iter().map(|e| e.1).collect();
    assert_eq!(
        kinds,
        vec![
            DeviceEvent::Connected(Speed::Full),
            DeviceEvent::Disconnected,
            DeviceEvent::Connected(Speed::Low),
            DeviceEvent::Disconnected,
            DeviceEvent::Connected(Speed::Full),
            DeviceEvent::Disconnected,
        ]
    );
}

#[test]
fn connection_configures_both_sides() {
    let mut b = bus();
    for _ in 0..14 {
        assert!(b.poll_device_event(Some(Speed::Low)).is_none());
    }
    match b.poll_device_event(Some(Speed::Low)) {
        Some(PortEvent::Connected { speed, tx, rx }) => {
            assert_eq!(speed, Speed::Low);
            assert_eq!(tx.clock_hz, 6_000_000);
            assert_eq!(tx.program.code, [0xC700, 0x73A2, 0xF380, 0x6BA2, 0xF083]);
            assert_eq!(rx.detector.clock_hz, Some(12_000_000));
            assert_eq!((rx.detector.in_base, rx.detector.jmp_pin, rx.decoder.jmp_pin), (3, 2, 3));
        }
        _ => panic!("not connected"),
    }
    assert_eq!(b.tx().release_reset()[0], PioOp::Exec { sm: 0, instr: 0x1004 });
}

#[test]
fn speed_can_be_set_directly() {
    let mut b = bus();
    let (tx, rx) = b.set_speed(Speed::Full);
    assert_eq!(tx.clock_hz, 48_000_000);
    assert_eq!((rx.detector.clock_hz, rx.detector.in_base), (Some(96_000_000), 2));
}

#[test]
fn disconnection_releases_the_bus() {
    let mut b = attached(Speed::Full);
    for _ in 0..59 {
        assert!(b.poll_device_event(None).is_none());
    }
    match b.poll_device_event(None) {
        Some(PortEvent::Disconnected { release }) => {
            assert_eq!(release, PioOp::Exec { sm: 0, instr: 0xe080 })
        }
        _ => panic!("still connected"),
    }
}

#[test]
fn waiting_resets_the_bus_on_connection_only() {
    let mut b = bus();
    for _ in 0..14 {
        assert_eq!(b.wait_for_device_event(Some(Speed::Full)).1, WaitStep::NextFrame);
    }
    let (event, step) = b.wait_for_device_event(Some(Speed::Full));
    assert!(event.is_some());
    assert_eq!(step, WaitStep::ResetThenReport(DeviceEvent::Connected(Speed::Full)));
    for _ in 0..59 {
        assert_eq!(b.wait_for_device_event(None).1, WaitStep::NextFrame);
    }
    let (event, step) = b.wait_for_device_event(None);
    assert!(event.is_some());
    assert_eq!(step, WaitStep::Report(DeviceEvent::Disconnected));
}

#[test]
fn reset_holds_and_recovers_long_enough() {
    let mut steps = Vec::new();
    while let Some(step) = Bus::bus_reset(steps.len()) {
        steps.push(step);
    }
    assert_eq!(
        &steps[..3],
        &[ResetStep::DriveSe0, ResetStep::HoldUs(15_000), ResetStep::Release]
    );
    assert_eq!(steps.len(), 33);
    for pair in steps[3..].chunks(2) {
        assert_eq!(pair, &[ResetStep::Keepalive, ResetStep::WaitFrame]);
    }
    assert!(RESET_SE0_US >= 10_000);
    assert!(RESET_RECOVERY_FRAMES * FRAME_INTERVAL_US >= 10_000);
    assert_eq!(DEBOUNCE_FRAMES, 15);
}

#[test]
fn nothing_is_due_without_a_device() {
    let b = bus();
    assert_eq!(b.keepalive(1_000_000), Keepalive::NotDue);
}

#[test]
fn full_speed_device_gets_one_sof_per_frame() {
    let mut b = attached(Speed::Full);
    assert_eq!(b.keepalive(999), Keepalive::NotDue);
    assert_eq!(b.keepalive(1000), Keepalive::Sof);
    assert_eq!(b.sof(1000), build_sof(0));
    // Other activity does not put SOF off.
    b.mark_activity(1900);
    assert_eq!(b.keepalive(1999), Keepalive::NotDue);
    assert_eq!(b.keepalive(2000), Keepalive::Sof);
    assert_eq!(b.sof(2000), build_sof(1));
}

#[test]
fn sof_frame_number_wraps() {
    let mut b = attached(Speed::Full);
    for n in 0..0x800u16 {
        assert_eq!(b.sof(u32::from(n)), build_sof(n));
    }
    assert_eq!(b.sof(0), build_sof(0));
}

#[test]
fn low_speed_device_gets_an_eop_when_idle() {
    let mut b = attached(Speed::Low);
    b.mark_activity(500);
    assert_eq!(b.keepalive(1499), Keepalive::NotDue);
    assert_eq!(b.keepalive(1500), Keepalive::LowSpeed);
    assert_eq!(b.ls_keepalive(1500), LS_KEEPALIVE_PACKET);
    assert_eq!(b.keepalive(2499), Keepalive::NotDue);
    assert_eq!(b.keepalive(2500), Keepalive::LowSpeed);
}

#[test]
fn keepalive_survives_the_timer_wrapping() {
    let mut b = attached(Speed::Full);
    b.sof(0xffff_ff00);
    assert_eq!(b.keepalive(743), Keepalive::NotDue);
    assert_eq!(b.keepalive(744), Keepalive::Sof);
}

#[test]
fn sof_counts_as_activity() {
    let mut b = attached(Speed::Low);
    b.sof(4000);
    assert_eq!(b.keepalive(4999), Keepalive::NotDue);
    assert_eq!(b.keepalive(5000), Keepalive::LowSpeed);
}

#[test]
fn high_gpio_window_is_local_to_the_pio() {
    let mut b = Bus::new(Chip::Rp235x, 33, 32, Pulldown::Internal, 5, 22, 0);
    let (tx, rx) = b.set_speed(Speed::Full);
    assert_eq!((rx.detector.in_base, rx.detector.jmp_pin, rx.decoder.in_base), (17, 16, 17));
    assert_eq!(tx.program.code[1], 0x73A2);
    assert_eq!(b.rx().prepare_for_receive()[2], PioOp::Exec { sm: 1, instr: 5 });
}

#[test]
fn pulldown_choices() {
    let internal = PinSetup { pull_down: true, invert_input: true };
    let external = PinSetup { pull_down: false, invert_input: true };
    assert_eq!(pin_setup(Pulldown::Internal), internal);
    assert_eq!(pin_setup(Pulldown::External), external);
    assert_eq!(Bus::new(Chip::Rp2040, 2, 3, Pulldown::Internal, 5, 22, 0).pins(), internal);
    assert_eq!(Bus::new(Chip::Rp2040, 2, 3, Pulldown::External, 5, 22, 0).pins(), external);
}
