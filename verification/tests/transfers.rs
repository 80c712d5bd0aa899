use rp_pio_usb_host::bus::Bus;
use rp_pio_usb_host::chip::Chip;
use rp_pio_usb_host::control::{ControlIn, ControlOut, InAction, OutAction};
use rp_pio_usb_host::encoding::{
    build_data, build_token, MAX_DATA_PACKET_BYTES, MAX_DATA_PACKET_WORDS, MAX_ENCODED_PACKET_BYTES,
};
use rp_pio_usb_host::pid::{
    USB_PID_ACK, USB_PID_DATA0, USB_PID_DATA1, USB_PID_IN, USB_PID_NAK, USB_PID_OUT, USB_PID_SETUP,
    USB_PID_STALL,
};
use rp_pio_usb_host::rx_driver::{Receiver, RxEvent, RxPacketStatus};
use rp_pio_usb_host::transaction::{
    check_ack, control_setup, handshake_buffer, in_reply, in_request, in_token, out_once, receive_data_and_ack,
    transmit_and_check_ack, transmit_for_reply, BusStep, InReply,
};
use rp_pio_usb_host::types::PipeError;
use rp_pio_usb_host::Pulldown;

fn data_words(pid: u8, payload: &[u8]) -> Vec<u32> {
    let mut packet = [0u8; MAX_DATA_PACKET_BYTES];
    let mut scratch = [0u8; MAX_ENCODED_PACKET_BYTES];
    let mut words = [0u32; MAX_DATA_PACKET_WORDS];
    build_data(pid, payload, &mut packet, &mut scratch, &mut words)
        .unwrap()
        .to_vec()
}

fn bus() -> Bus {
    Bus::new(Chip::Rp2040, 2, 3, Pulldown::External, 5, 22, 0)
}

fn all<F: Fn(usize) -> Option<BusStep>>(f: F) -> Vec<BusStep> {
    let mut steps = Vec::new();
    while let Some(step) = f(steps.len()) {
        steps.push(step);
    }
    steps
}

/// A GET_DESCRIPTOR request for `wlen` bytes.
fn get_descriptor(wlen: u16) -> [u8; 8] {
    let l = wlen.to_le_bytes();
    [0x80, 6, 0, 1, 0, 0, l[0], l[1]]
}

fn reply(data1: bool, payload_len: usize) -> Result<InReply, PipeError> {
    let pid = if data1 { USB_PID_DATA1 } else { USB_PID_DATA0 };
    Ok(InReply::Data { pid, valid_crc: true, payload_len })
}

/// A captured packet around a payload.
fn captured(payload: &[u8]) -> Vec<u8> {
    let mut pkt = vec![0x80, 0];
    pkt.extend_from_slice(payload);
    pkt.extend_from_slice(&[0, 0]);
    pkt
}

/// A control-IN transfer in its DATA stage.
fn in_data_stage(mps: u16, wlen: u16, capacity: usize) -> ControlIn {
    let mut t = bus().control_in(1, 0, mps, &get_descriptor(wlen), capacity);
    assert_eq!(t.action(), InAction::Keepalive);
    t.keepalive_done();
    assert_eq!(t.action(), InAction::Keepalive);
    t.keepalive_done();
    assert_eq!(t.action(), InAction::SendSetup);
    t.handshake(Ok(true));
    t
}

fn out_after_setup(mps: u16, len: usize) -> ControlOut {
    let mut t = bus().control_out(9, 0, mps, &[0, 9, 1, 0, 0, 0, 0, 0], len);
    assert_eq!(t.action(), OutAction::Keepalive);
    t.keepalive_done();
    assert_eq!(t.action(), OutAction::SendSetup);
    t.handshake(Ok(true));
    t
}

#[test]
fn out_transaction_packets() {
    let p = out_once(5, 2, true, b"hello").unwrap();
    assert_eq!(p.token(), &build_token(USB_PID_OUT, 5, 2));
    assert_eq!(p.data(), &data_words(USB_PID_DATA1, b"hello")[..]);
    let p = out_once(5, 2, false, &[0xff; 64]).unwrap();
    assert_eq!(p.data(), &data_words(USB_PID_DATA0, &[0xff; 64])[..]);
    assert_eq!(out_once(5, 2, false, &[0; 65]).err(), Some(PipeError::BufferOverflow));
}

#[test]
fn setup_packets_are_data0() {
    let setup = get_descriptor(18);
    let p = control_setup(7, 0, &setup);
    assert_eq!(p.token(), &build_token(USB_PID_SETUP, 7, 0));
    assert_eq!(p.data(), &data_words(USB_PID_DATA0, &setup)[..]);
    assert_eq!(in_token(7, 1), build_token(USB_PID_IN, 7, 1));
}

#[test]
fn receiver_is_armed_around_every_transmission() {
    assert_eq!(
        all(|i| transmit_for_reply(false, i)),
        vec![BusStep::PrepareReceive, BusStep::TransmitFirst, BusStep::StartReceive]
    );
    assert_eq!(
        all(|i| transmit_and_check_ack(true, i)),
        vec![
            BusStep::PrepareReceive,
            BusStep::TransmitFirst,
            BusStep::TransmitSecond,
            BusStep::StartReceive,
            BusStep::Receive,
            BusStep::MarkActivity,
        ]
    );
    assert_eq!(
        all(in_request),
        vec![
            BusStep::PrepareReceive,
            BusStep::TransmitFirst,
            BusStep::StartReceive,
            BusStep::PrepareAck,
            BusStep::Receive,
        ]
    );
}

#[test]
fn only_valid_data_is_acknowledged() {
    let valid = RxPacketStatus::ValidData;
    assert_eq!(
        all(|i| receive_data_and_ack(4, valid, USB_PID_DATA0, i)),
        vec![BusStep::StartTx, BusStep::MarkActivity, BusStep::WaitTx]
    );
    for status in [RxPacketStatus::NoReply, RxPacketStatus::Invalid, RxPacketStatus::Overflow] {
        assert_eq!(
            all(|i| receive_data_and_ack(4, status, USB_PID_DATA0, i)),
            vec![BusStep::MarkActivity]
        );
    }
}

#[test]
fn handshakes() {
    assert_eq!(check_ack(2, USB_PID_ACK), Ok(true));
    assert_eq!(check_ack(2, USB_PID_NAK), Ok(false));
    assert_eq!(check_ack(2, USB_PID_STALL), Err(PipeError::Stall));
    assert_eq!(check_ack(1, USB_PID_ACK), Ok(false));
    assert_eq!(check_ack(0, USB_PID_STALL), Ok(false));
}

#[test]
fn in_replies() {
    let invalid = RxPacketStatus::Invalid;
    assert_eq!(in_reply(0, RxPacketStatus::NoReply, 0), Ok(InReply::NoReply));
    assert_eq!(in_reply(1, invalid, USB_PID_STALL), Ok(InReply::NoReply));
    assert_eq!(in_reply(2, invalid, USB_PID_NAK), Ok(InReply::Nak));
    assert_eq!(in_reply(2, invalid, USB_PID_STALL), Err(PipeError::Stall));
    assert_eq!(in_reply(2, invalid, USB_PID_ACK), Ok(InReply::Other));
    assert_eq!(in_reply(8, RxPacketStatus::Overflow, USB_PID_DATA0), Err(PipeError::Babble));
    assert_eq!(
        in_reply(12, RxPacketStatus::ValidData, USB_PID_DATA1),
        Ok(InReply::Data { pid: USB_PID_DATA1, valid_crc: true, payload_len: 8 })
    );
    assert_eq!(
        in_reply(3, invalid, USB_PID_DATA0),
        Ok(InReply::Data { pid: USB_PID_DATA0, valid_crc: false, payload_len: 0 })
    );
}

#[test]
fn capture_buffers() {
    assert_eq!(in_data_stage(8, 8, 8).capture_buffer(), [0u8; 68]);
    assert_eq!(out_after_setup(8, 0).capture_buffer(), [0u8; 8]);
    assert_eq!(handshake_buffer(), [0u8; 8]);
}

#[test]
fn status_reply_longer_than_its_buffer_is_babble() {
    let capture = |payload: &[u8]| {
        let mut bytes = vec![0x80, USB_PID_DATA1];
        bytes.extend_from_slice(payload);
        bytes.extend_from_slice(&rp_pio_usb_host::crc::calc_crc16(payload).to_le_bytes());
        let mut r = Receiver::new(out_after_setup(8, 0).capture_buffer(), 0);
        for b in &bytes {
            r.receive(RxEvent::Word { word: u32::from(*b) << 24, now: 0 });
        }
        let (n, status) = r.receive(RxEvent::Idle { irq: 4, now: 0 }).unwrap();
        in_reply(n, status, r.buffer()[1])
    };
    assert_eq!(capture(&[]), reply(true, 0));
    assert_eq!(capture(&[1, 2, 3, 4]), reply(true, 4));
    assert_eq!(capture(&[1, 2, 3, 4, 5]), Err(PipeError::Babble));
}

#[test]
fn control_in_collects_a_descriptor() {
    let mut t = in_data_stage(8, 18, 32);
    let mut data = [0u8; 32];
    let want: Vec<u8> = (1..=18).collect();
    assert_eq!(t.action(), InAction::PollIn);
    assert_eq!(t.poll_token(), build_token(USB_PID_IN, 1, 0));
    t.polled(Ok(InReply::Nak), &[], &mut data);
    t.polled(reply(true, 8), &captured(&want[..8]), &mut data);
    // A repeated packet is dropped.
    t.polled(reply(true, 8), &captured(&[0xff; 8]), &mut data);
    t.polled(Ok(InReply::NoReply), &[], &mut data);
    t.polled(reply(false, 8), &captured(&want[8..16]), &mut data);
    assert_eq!(t.action(), InAction::PollIn);
    t.polled(reply(true, 2), &captured(&want[16..]), &mut data);
    assert_eq!(t.action(), InAction::SendStatus);
    let status = t.status_packets();
    assert_eq!(status.token(), &build_token(USB_PID_OUT, 1, 0));
    assert_eq!(status.data(), &data_words(USB_PID_DATA1, &[])[..]);
    t.handshake(Ok(false));
    t.handshake(Ok(true));
    assert_eq!(t.action(), InAction::Finish(Ok(18)));
    assert_eq!(&data[..18], &want[..]);
    assert_eq!(&data[18..], &[0u8; 14]);
}

#[test]
fn control_in_ends_at_the_requested_length() {
    // The bootstrap read: one packet that is longer than the assumed packet size.
    let mut t = in_data_stage(8, 18, 18);
    let mut data = [0u8; 18];
    t.polled(reply(true, 18), &captured(&[7; 18]), &mut data);
    assert_eq!(t.action(), InAction::SendStatus);
    assert_eq!(data, [7; 18]);
}

#[test]
fn control_in_ends_at_a_short_packet() {
    let mut t = in_data_stage(8, 64, 64);
    let mut data = [0u8; 64];
    t.polled(reply(true, 8), &captured(&[1; 8]), &mut data);
    t.polled(reply(false, 0), &captured(&[]), &mut data);
    assert_eq!(t.action(), InAction::SendStatus);
    t.handshake(Ok(true));
    assert_eq!(t.action(), InAction::Finish(Ok(8)));
}

#[test]
fn control_in_without_data_goes_to_status() {
    let t = in_data_stage(8, 0, 0);
    assert_eq!(t.action(), InAction::SendStatus);
}

#[test]
fn control_in_refuses_a_request_beyond_the_buffer() {
    let mut t = bus().control_in(1, 0, 8, &get_descriptor(0x0112), 0x0111);
    t.keepalive_done();
    assert_eq!(t.action(), InAction::Finish(Err(PipeError::BufferOverflow)));
    let mut t = bus().control_in(1, 0, 8, &get_descriptor(0x0112), 0x0112);
    t.keepalive_done();
    assert_eq!(t.action(), InAction::Keepalive);
}

#[test]
fn control_in_refuses_a_packet_beyond_the_buffer() {
    let mut t = in_data_stage(8, 10, 10);
    let mut data = [0u8; 10];
    t.polled(reply(true, 8), &captured(&[1; 8]), &mut data);
    t.polled(reply(false, 8), &captured(&[2; 8]), &mut data);
    assert_eq!(t.action(), InAction::Finish(Err(PipeError::BufferOverflow)));
    assert_eq!(data, [1, 1, 1, 1, 1, 1, 1, 1, 0, 0]);
}

#[test]
fn control_in_setup_is_tried_once() {
    let mut t = bus().control_in(3, 0, 8, &get_descriptor(8), 8);
    t.keepalive_done();
    t.keepalive_done();
    let p = t.setup_packets();
    assert_eq!(p.token(), &build_token(USB_PID_SETUP, 3, 0));
    assert_eq!(p.data(), &data_words(USB_PID_DATA0, &get_descriptor(8))[..]);
    t.handshake(Ok(false));
    assert_eq!(t.action(), InAction::Finish(Err(PipeError::Timeout)));
}

#[test]
fn control_in_stall_budget_is_per_packet() {
    let mut t = in_data_stage(8, 16, 16);
    let mut data = [0u8; 16];
    for _ in 0..63 {
        t.polled(Ok(InReply::Nak), &[], &mut data);
    }
    t.polled(reply(true, 8), &captured(&[1; 8]), &mut data);
    for _ in 0..63 {
        assert_eq!(t.action(), InAction::PollIn);
        t.polled(Ok(InReply::Other), &[], &mut data);
    }
    assert_eq!(t.action(), InAction::PollIn);
    let bad = Ok(InReply::Data { pid: USB_PID_DATA0, valid_crc: false, payload_len: 0 });
    t.polled(bad, &[0; 4], &mut data);
    assert_eq!(t.action(), InAction::Finish(Err(PipeError::Timeout)));
}

#[test]
fn control_in_polls_are_capped_in_all() {
    let mut t = in_data_stage(1, 1000, 1000);
    let mut data = [0u8; 1000];
    let mut toggle = true;
    for n in 0..400 {
        assert_eq!(t.action(), InAction::PollIn, "poll {}", n);
        t.polled(reply(toggle, 1), &captured(&[5]), &mut data);
        toggle = !toggle;
    }
    assert_eq!(t.action(), InAction::Finish(Err(PipeError::Timeout)));
}

#[test]
fn control_in_cap_cuts_a_packet_budget_short() {
    let mut t = in_data_stage(1, 1000, 1000);
    let mut data = [0u8; 1000];
    let mut toggle = true;
    for _ in 0..390 {
        t.polled(reply(toggle, 1), &captured(&[5]), &mut data);
        toggle = !toggle;
    }
    for _ in 0..10 {
        assert_eq!(t.action(), InAction::PollIn);
        t.polled(Ok(InReply::Nak), &[], &mut data);
    }
    assert_eq!(t.action(), InAction::Finish(Err(PipeError::Timeout)));
}

#[test]
fn control_in_status_is_retried() {
    let mut t = in_data_stage(8, 0, 0);
    for _ in 0..63 {
        t.handshake(Ok(false));
        assert_eq!(t.action(), InAction::SendStatus);
    }
    t.handshake(Ok(false));
    assert_eq!(t.action(), InAction::Finish(Err(PipeError::Timeout)));
}

#[test]
fn control_in_passes_errors_on() {
    let mut data = [0u8; 8];
    let mut t = in_data_stage(8, 8, 8);
    t.polled(Err(PipeError::Stall), &[], &mut data);
    assert_eq!(t.action(), InAction::Finish(Err(PipeError::Stall)));
    let mut t = in_data_stage(8, 8, 8);
    t.polled(Err(PipeError::Babble), &[], &mut data);
    assert_eq!(t.action(), InAction::Finish(Err(PipeError::Babble)));
    let mut t = in_data_stage(8, 0, 8);
    t.handshake(Err(PipeError::Stall));
    assert_eq!(t.action(), InAction::Finish(Err(PipeError::Stall)));
}

#[test]
fn control_out_without_data() {
    let mut t = out_after_setup(8, 0);
    assert_eq!(t.action(), OutAction::PollStatus);
    assert_eq!(t.poll_token(), build_token(USB_PID_IN, 9, 0));
    t.polled(Ok(InReply::Nak));
    t.polled(reply(true, 0));
    assert_eq!(t.action(), OutAction::Finish(Ok(())));
}

#[test]
fn control_out_status_is_a_zero_length_data1() {
    let mut t = out_after_setup(8, 0);
    t.polled(reply(false, 0));
    assert_eq!(t.action(), OutAction::PollStatus);
    t.polled(reply(false, 2));
    assert_eq!(t.action(), OutAction::PollStatus);
    t.polled(reply(true, 2));
    assert_eq!(t.action(), OutAction::PollStatus);
    t.polled(reply(true, 0));
    assert_eq!(t.action(), OutAction::Finish(Ok(())));
}

#[test]
fn control_out_splits_data_and_alternates_toggles() {
    let data: Vec<u8> = (0..20).collect();
    let mut t = out_after_setup(8, data.len());
    for (range, pid) in [(0..8, USB_PID_DATA1), (8..16, USB_PID_DATA0), (16..20, USB_PID_DATA1)] {
        assert_eq!(t.action(), OutAction::SendData);
        let p = t.data_packets(&data).unwrap();
        assert_eq!(p.token(), &build_token(USB_PID_OUT, 9, 0));
        assert_eq!(p.data(), &data_words(pid, &data[range])[..]);
        // Not acknowledged: the same packet again.
        t.handshake(Ok(false));
        let again = t.data_packets(&data).unwrap();
        assert_eq!(again.data(), p.data());
        t.handshake(Ok(true));
    }
    assert_eq!(t.action(), OutAction::PollStatus);
}

#[test]
fn control_out_takes_a_packet_size_of_zero_as_one() {
    let mut t = out_after_setup(0, 2);
    let p = t.data_packets(b"xy").unwrap();
    assert_eq!(p.data(), &data_words(USB_PID_DATA1, b"x")[..]);
    t.handshake(Ok(true));
    let p = t.data_packets(b"xy").unwrap();
    assert_eq!(p.data(), &data_words(USB_PID_DATA0, b"y")[..]);
}

#[test]
fn control_out_refuses_a_packet_too_large() {
    let data = [0u8; 100];
    let mut t = out_after_setup(100, data.len());
    let e = t.data_packets(&data).err().unwrap();
    assert_eq!(e, PipeError::BufferOverflow);
    t.handshake(Err(e));
    assert_eq!(t.action(), OutAction::Finish(Err(PipeError::BufferOverflow)));
}

#[test]
fn control_out_retries_each_packet() {
    let mut t = out_after_setup(4, 8);
    for _ in 0..63 {
        t.handshake(Ok(false));
    }
    t.handshake(Ok(true));
    for _ in 0..63 {
        assert_eq!(t.action(), OutAction::SendData);
        t.handshake(Ok(false));
    }
    t.handshake(Ok(false));
    assert_eq!(t.action(), OutAction::Finish(Err(PipeError::Timeout)));
}

#[test]
fn control_out_setup_is_tried_once() {
    let setup = [0, 5, 9, 0, 0, 0, 0, 0];
    let mut t = bus().control_out(0, 0, 8, &setup, 0);
    t.keepalive_done();
    let p = t.setup_packets();
    assert_eq!(p.token(), &build_token(USB_PID_SETUP, 0, 0));
    assert_eq!(p.data(), &data_words(USB_PID_DATA0, &setup)[..]);
    t.handshake(Ok(false));
    assert_eq!(t.action(), OutAction::Finish(Err(PipeError::Timeout)));
}

#[test]
fn control_out_polls_the_status_persistently() {
    let mut t = out_after_setup(8, 0);
    let bad = Ok(InReply::Data { pid: USB_PID_DATA1, valid_crc: false, payload_len: 0 });
    for n in 0..400 {
        assert_eq!(t.action(), OutAction::PollStatus, "poll {}", n);
        t.polled(if n % 2 == 0 { Ok(InReply::Nak) } else { bad });
    }
    assert_eq!(t.action(), OutAction::Finish(Err(PipeError::Timeout)));
}

#[test]
fn control_out_passes_errors_on() {
    let mut t = out_after_setup(8, 8);
    t.handshake(Err(PipeError::Stall));
    assert_eq!(t.action(), OutAction::Finish(Err(PipeError::Stall)));
    let mut t = out_after_setup(8, 0);
    t.polled(Err(PipeError::Babble));
    assert_eq!(t.action(), OutAction::Finish(Err(PipeError::Babble)));
}
