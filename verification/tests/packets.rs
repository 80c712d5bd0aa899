use rp_pio_usb_host::crc::{calc_crc16, calc_crc5, crc16_update, USB_CRC16_RESIDUE};
use rp_pio_usb_host::encoding::{
    build_data, build_data_packet, build_sof, build_token, encode, encode_tx_data, repack_for_fifo,
    ACK_PACKET, LS_KEEPALIVE_PACKET, MAX_DATA_PACKET_BYTES, MAX_DATA_PACKET_WORDS,
    MAX_DATA_PAYLOAD_BYTES, MAX_ENCODED_PACKET_BYTES,
};
use rp_pio_usb_host::pid::{
    USB_PID_ACK, USB_PID_DATA0, USB_PID_DATA1, USB_PID_IN, USB_PID_NAK, USB_PID_OUT, USB_PID_SETUP,
    USB_PID_SOF, USB_PID_STALL, USB_SYNC,
};

/// The 2-bit symbols of FIFO words, in playing order.
fn symbols(words: &[u32]) -> Vec<u8> {
    let mut out = Vec::new();
    for w in words {
        for i in 0..16 {
            out.push(((w >> (30 - 2 * i)) & 3) as u8);
        }
    }
    out
}

/// The bits on the line up to SE0, with NRZI undone and stuff bits still in.
fn line_bits(words: &[u32]) -> Vec<bool> {
    let mut out = Vec::new();
    let mut last = 1u8;
    for s in symbols(words) {
        if s == 0 {
            return out;
        }
        assert!(s == 1 || s == 3, "only J and K before SE0");
        out.push(s == last);
        last = s;
    }
    panic!("no SE0");
}

/// The bytes that a receiver takes off the line.
fn receive(words: &[u32]) -> Vec<u8> {
    let mut bits = Vec::new();
    let mut ones = 0;
    for b in line_bits(words) {
        if ones == 6 {
            assert!(!b, "a stuff bit is zero");
            ones = 0;
            continue;
        }
        ones = if b { ones + 1 } else { 0 };
        bits.push(b);
    }
    assert_eq!(bits.len() % 8, 0);
    bits.chunks(8)
        .map(|c| (0..8).fold(0u8, |a, i| a | (u8::from(c[i]) << i)))
        .collect()
}

fn encode_to_vec(pkt: &[u8]) -> Vec<u32> {
    let mut scratch = [0u8; MAX_ENCODED_PACKET_BYTES];
    let mut words = [0u32; MAX_DATA_PACKET_WORDS];
    let n = encode(pkt, &mut scratch, &mut words).unwrap();
    words[..n].to_vec()
}

fn data_to_vec(pid: u8, payload: &[u8]) -> Option<Vec<u32>> {
    let mut packet = [0u8; MAX_DATA_PACKET_BYTES];
    let mut scratch = [0u8; MAX_ENCODED_PACKET_BYTES];
    let mut words = [0u32; MAX_DATA_PACKET_WORDS];
    build_data(pid, payload, &mut packet, &mut scratch, &mut words).map(|w| w.to_vec())
}

fn bitwise_crc16(data: &[u8]) -> u16 {
    let mut crc = 0xffffu16;
    for b in data {
        crc ^= u16::from(*b);
        for _ in 0..8 {
            crc = if crc & 1 != 0 { (crc >> 1) ^ 0xa001 } else { crc >> 1 };
        }
    }
    !crc
}

fn bitwise_crc5(field: u16) -> u8 {
    let mut crc = 0x1fu8;
    for i in 0..11 {
        let bit = ((field >> i) & 1) as u8;
        crc = if (crc & 1) != bit { (crc >> 1) ^ 0x14 } else { crc >> 1 };
    }
    crc ^ 0x1f
}

#[test]
fn pids_carry_their_complement() {
    for pid in [
        USB_PID_SOF,
        USB_PID_SETUP,
        USB_PID_IN,
        USB_PID_OUT,
        USB_PID_DATA0,
        USB_PID_DATA1,
        USB_PID_ACK,
        USB_PID_NAK,
        USB_PID_STALL,
    ] {
        assert_eq!(pid >> 4, !pid & 0x0f);
    }
}

#[test]
fn crc16_known_values() {
    assert_eq!(calc_crc16(b"123456789"), 0xb4c8);
    assert_eq!(calc_crc16(&[]), 0x0000);
    // GET_DESCRIPTOR(device), wLength 64
    assert_eq!(calc_crc16(&[0x80, 0x06, 0x00, 0x01, 0x00, 0x00, 0x40, 0x00]), 0x94dd);
}

#[test]
fn crc16_agrees_with_the_bitwise_form() {
    let mut data = Vec::new();
    for i in 0..=255u8 {
        data.push(i.wrapping_mul(73).wrapping_add(11));
        assert_eq!(calc_crc16(&data), bitwise_crc16(&data));
    }
}

#[test]
fn crc16_update_takes_one_byte() {
    assert_eq!(crc16_update(0xffff, 0x00), 0x40bf);
    assert_eq!(crc16_update(0xffff, 0xff), 0x00ff);
}

#[test]
fn crc16_residue_after_intact_data() {
    let payload = [0x12u8, 0x01, 0x00, 0x02, 0xff, 0xff];
    let crc = calc_crc16(&payload);
    let mut running = 0xffffu16;
    for b in payload {
        running = crc16_update(running, b);
    }
    running = crc16_update(running, (crc & 0xff) as u8);
    let good = crc16_update(running, (crc >> 8) as u8);
    assert_eq!(good, USB_CRC16_RESIDUE);
    for flip in 0..8 {
        let bad = crc16_update(running, ((crc >> 8) as u8) ^ (1 << flip));
        assert_ne!(bad, USB_CRC16_RESIDUE);
    }
}

#[test]
fn crc5_agrees_with_the_bitwise_form() {
    for field in 0..0x800u16 {
        assert_eq!(calc_crc5(field), bitwise_crc5(field));
    }
    assert_eq!(calc_crc5(0x53a), 0x07);
    assert_eq!(calc_crc5(0x001), 0x1d);
    assert_eq!(calc_crc5(0x000), 0x02);
}

#[test]
fn ack_packet_is_the_encoded_handshake() {
    assert_eq!(encode_to_vec(&[USB_SYNC, USB_PID_ACK]), ACK_PACKET.to_vec());
    assert_eq!(receive(&ACK_PACKET), vec![USB_SYNC, USB_PID_ACK]);
}

#[test]
fn keepalive_packet_is_an_empty_packet() {
    assert_eq!(encode_to_vec(&[]), LS_KEEPALIVE_PACKET.to_vec());
    let s = symbols(&LS_KEEPALIVE_PACKET);
    assert_eq!(&s[..3], &[0, 2, 1]);
}

#[test]
fn sync_is_seven_zeros_and_a_one() {
    let words = encode_to_vec(&[USB_SYNC]);
    // K J K J K J K K, then EOP
    assert_eq!(&symbols(&words)[..10], &[3, 1, 3, 1, 3, 1, 3, 3, 0, 2]);
}

#[test]
fn symbol_bytes_of_a_handshake() {
    let mut out = [0xaau8; 8];
    assert_eq!(encode_tx_data(&[USB_SYNC, USB_PID_ACK], &mut out), Some(5));
    assert_eq!(out, [0xdd, 0xdf, 0x5d, 0x7f, 0x25, 0xaa, 0xaa, 0xaa]);
}

#[test]
fn padding_only_aligns() {
    // 16 bits and 2 stuff bits; with EOP they fill 5 bytes.
    let mut out = [0xaau8; 5];
    assert_eq!(encode_tx_data(&[0xff, 0xff], &mut out), Some(5));
    assert_eq!(out[4] & 0x0f, 0b00_10);
    for n in 0..=255u8 {
        let pkt = [n, 0xff, n, 0xff, 0xff];
        let mut out = [0u8; 20];
        let bytes = encode_tx_data(&pkt, &mut out).unwrap();
        let line = line_bits(&encode_to_vec(&pkt)).len();
        assert_eq!(bytes, (line + 5) / 4);
    }
}

#[test]
fn encoder_reports_a_short_buffer() {
    let mut out = [0u8; 4];
    assert_eq!(encode_tx_data(&[USB_SYNC, USB_PID_ACK], &mut out), None);
    assert_eq!(out, [0xdd, 0xdf, 0x5d, 0x7f]);
    let mut exact = [0u8; 5];
    assert_eq!(encode_tx_data(&[USB_SYNC, USB_PID_ACK], &mut exact), Some(5));
}

#[test]
fn repacking_pads_with_idle() {
    let mut words = [0u32; 3];
    assert_eq!(repack_for_fifo(&[1, 2, 3, 4, 5], &mut words), Some(2));
    assert_eq!(words, [0x0102_0304, 0x0555_5555, 0]);
    assert_eq!(repack_for_fifo(&[], &mut words), Some(0));
    assert_eq!(repack_for_fifo(&[9; 13], &mut words), None);
    assert_eq!(words, [0x0102_0304, 0x0555_5555, 0]);
}

#[test]
fn six_ones_are_followed_by_a_stuff_bit() {
    let words = encode_to_vec(&[0xff, 0xff]);
    let bits = line_bits(&words);
    assert_eq!(bits.len(), 18);
    assert!(!bits[6] && !bits[13]);
    assert_eq!(receive(&words), vec![0xff, 0xff]);
}

#[test]
fn no_line_shows_seven_ones() {
    for seed in 0..64u8 {
        let pkt: Vec<u8> = (0..40u8).map(|i| (i ^ seed).wrapping_mul(251) | seed).collect();
        let mut ones = 0;
        for b in line_bits(&encode_to_vec(&pkt)) {
            ones = if b { ones + 1 } else { 0 };
            assert!(ones <= 6);
        }
    }
}

#[test]
fn what_is_encoded_is_received() {
    for seed in 0..=255u8 {
        let pkt: Vec<u8> = (0..(seed % 60)).map(|i| i.wrapping_mul(seed) ^ (seed >> 1)).collect();
        assert_eq!(receive(&encode_to_vec(&pkt)), pkt);
    }
}

#[test]
fn sof_packets() {
    assert_eq!(receive(&build_sof(0)), vec![0x80, 0xa5, 0x00, 0x10]);
    assert_eq!(receive(&build_sof(1)), vec![0x80, 0xa5, 0x01, 0xe8]);
    assert_eq!(build_sof(0x801), build_sof(1));
    for frame in 0..0x800u16 {
        let bytes = receive(&build_sof(frame));
        assert_eq!(u16::from_le_bytes([bytes[2], bytes[3] & 7]), frame);
        assert_eq!(bytes[3] >> 3, bitwise_crc5(frame));
    }
}

#[test]
fn token_packets() {
    assert_eq!(receive(&build_token(USB_PID_SETUP, 0, 0)), vec![0x80, 0x2d, 0x00, 0x10]);
    assert_eq!(receive(&build_token(USB_PID_OUT, 0x3a, 0x0a)), vec![0x80, 0xe1, 0x3a, 0x3d]);
    assert_eq!(build_token(USB_PID_IN, 0x81, 0x13), build_token(USB_PID_IN, 1, 3));
    for addr in 0..128u8 {
        for ep in 0..16u8 {
            let bytes = receive(&build_token(USB_PID_IN, addr, ep));
            let field = u16::from_le_bytes([bytes[2], bytes[3]]);
            assert_eq!(field & 0x7f, u16::from(addr));
            assert_eq!((field >> 7) & 0xf, u16::from(ep));
            assert_eq!((field >> 11) as u8, bitwise_crc5(field & 0x7ff));
        }
    }
}

#[test]
fn raw_data_packet_layout() {
    let mut out = [0xeeu8; 10];
    assert_eq!(build_data_packet(USB_PID_DATA1, b"abc", &mut out), Some(7));
    let crc = bitwise_crc16(b"abc");
    assert_eq!(
        out,
        [0x80, 0x4b, b'a', b'b', b'c', (crc & 0xff) as u8, (crc >> 8) as u8, 0xee, 0xee, 0xee]
    );
}

#[test]
fn raw_data_packet_refusals() {
    let mut out = [0xeeu8; 80];
    assert_eq!(build_data_packet(USB_PID_DATA0, &[0; 65], &mut out), None);
    assert_eq!(out, [0xeeu8; 80]);
    let mut short = [0xeeu8; 6];
    assert_eq!(build_data_packet(USB_PID_DATA0, b"abc", &mut short), None);
    assert_eq!(short, [0xeeu8; 6]);
}

#[test]
fn data_packets_of_every_length_fit_the_buffers() {
    for n in 0..=MAX_DATA_PAYLOAD_BYTES {
        for fill in [0x00u8, 0xff, 0x7e, 0xaa] {
            let payload = vec![fill; n];
            let words = data_to_vec(USB_PID_DATA0, &payload).unwrap();
            let bytes = receive(&words);
            assert_eq!(&bytes[..2], &[0x80, 0xc3]);
            assert_eq!(&bytes[2..n + 2], &payload[..]);
            let crc = bitwise_crc16(&payload);
            assert_eq!(&bytes[n + 2..], &crc.to_le_bytes());
        }
    }
    assert_eq!(data_to_vec(USB_PID_DATA0, &[0; 65]), None);
}

#[test]
fn zero_length_data_packet() {
    assert_eq!(
        receive(&data_to_vec(USB_PID_DATA1, &[]).unwrap()),
        vec![0x80, 0x4b, 0x00, 0x00]
    );
}

#[test]
fn data_packet_needs_all_its_buffers() {
    let payload = [0u8; 8];
    let mut packet = [0u8; 12];
    let mut scratch = [0u8; 160];
    let mut words = [7u32; 40];
    assert!(build_data(USB_PID_DATA0, &payload, &mut packet[..11], &mut scratch, &mut words).is_none());
    let mut small = [0u8; 4];
    assert!(build_data(USB_PID_DATA0, &payload, &mut packet, &mut small, &mut words).is_none());
    assert_eq!(words, [7u32; 40]);
    assert!(build_data(USB_PID_DATA0, &payload, &mut packet, &mut scratch, &mut words[..6]).is_none());
    let built = build_data(USB_PID_DATA0, &payload, &mut packet, &mut scratch, &mut words[..7])
        .unwrap()
        .len();
    assert_eq!(built, 7);
}
