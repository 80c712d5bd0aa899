use pio::{
    Assembler, InSource, Instruction, InstructionOperands, IrqIndexMode, JmpCondition,
    MovDestination, MovOperation, MovSource, OutDestination, Program, SetDestination, SideSet,
    WaitSource, Wrap,
};
use rp_pio_usb_host::pio_program::PioProgram;
use rp_pio_usb_host::ram::{DECODER_SM, DETECTOR_SM, TX_SM};
use rp_pio_usb_host::rx_pio::{
    usb_edge_detector_program, usb_nrzi_decoder_program, DECODER_PRIME_OSR, DECODER_PRIME_X,
    DECODER_TRIGGER, IRQ_RX_ALL, IRQ_RX_ARM, IRQ_RX_EOP, IRQ_RX_START,
};
use rp_pio_usb_host::tx_driver::{IRQ_TX_EOP_BIT, SET_PINDIRS_IN, SET_PINDIRS_OUT, SET_PINS_SE0};
use rp_pio_usb_host::tx_pio::{
    usb_tx_j_high_on_higher_program, usb_tx_j_high_on_lower_program, TX_START_INSTR_J_HIGH_ON_HIGHER,
    TX_START_INSTR_J_HIGH_ON_LOWER,
};

fn assert_same<const N: usize>(ours: PioProgram<N>, theirs: Program<32>) {
    assert_eq!(&ours.code[..], &theirs.code[..]);
    assert_eq!(ours.origin, theirs.origin);
    assert_eq!(ours.wrap_target, theirs.wrap.target);
    assert_eq!(ours.wrap_source, theirs.wrap.source);
    assert_eq!(ours.side_set_bits, theirs.side_set.bits());
    assert!(!theirs.side_set.optional() && !theirs.side_set.pindirs());
}

fn player(j: u8, k: u8) -> Program<32> {
    let mut a = Assembler::<32>::new_with_side_set(SideSet::new(false, 2, false));
    a.irq_with_delay_and_side_set(false, false, 0, IrqIndexMode::DIRECT, 7, 0);
    a.out_with_delay_and_side_set(OutDestination::PC, 2, 3, j);
    a.set_with_delay_and_side_set(SetDestination::PINDIRS, 0, 3, j);
    a.out_with_delay_and_side_set(OutDestination::PC, 2, 3, k);
    a.set_with_side_set(SetDestination::PINDIRS, 3, j);
    a.assemble_program()
        .set_wrap(Wrap { source: 4, target: 1 })
        .set_origin(Some(0))
}

fn encode_plain(operands: InstructionOperands) -> u16 {
    Instruction { operands, delay: 0, side_set: None }.encode(SideSet::new(false, 0, false))
}

fn push_in(a: &mut Assembler<32>, source: InSource) {
    let operands = InstructionOperands::IN { source, bit_count: 1 };
    a.instructions.push(Instruction { operands, delay: 0, side_set: None });
}

#[test]
fn player_with_j_on_the_lower_pin() {
    assert_same(usb_tx_j_high_on_lower_program(), player(1, 2));
}

#[test]
fn player_with_j_on_the_higher_pin() {
    assert_same(usb_tx_j_high_on_higher_program(), player(2, 1));
}

#[test]
fn start_instructions_jump_to_the_start_slot() {
    for (instr, side) in [(TX_START_INSTR_J_HIGH_ON_LOWER, 1u8), (TX_START_INSTR_J_HIGH_ON_HIGHER, 2)] {
        let operands = InstructionOperands::JMP { condition: JmpCondition::Always, address: 4 };
        let encoded = Instruction { operands, delay: 0, side_set: Some(side) }
            .encode(SideSet::new(false, 2, false));
        assert_eq!(instr, encoded);
    }
}

#[test]
fn edge_detector_text() {
    let mut a = Assembler::<32>::new();
    let mut eop = a.label();
    let mut start = a.label();
    let mut pin_went_high = a.label();
    let mut pin_went_low = a.label();
    let mut pin_still_high = a.label();
    let mut wrap_target = a.label();
    let mut wrap_source = a.label();
    a.bind(&mut eop);
    a.irq(false, true, IRQ_RX_EOP, IrqIndexMode::DIRECT);
    a.bind(&mut start);
    a.jmp(JmpCondition::PinHigh, &mut start);
    a.irq_with_delay(false, false, IRQ_RX_START, IrqIndexMode::DIRECT, 1);
    a.bind(&mut wrap_target);
    a.irq_with_delay(false, false, DECODER_TRIGGER, IrqIndexMode::DIRECT, 1);
    a.jmp(JmpCondition::PinHigh, &mut pin_went_high);
    a.jmp(JmpCondition::PinHigh, &mut pin_went_high);
    a.bind(&mut pin_went_low);
    a.jmp(JmpCondition::PinHigh, &mut pin_went_high);
    a.jmp(JmpCondition::PinHigh, &mut pin_went_high);
    a.jmp(JmpCondition::PinHigh, &mut pin_went_high);
    a.jmp(JmpCondition::PinHigh, &mut pin_went_high);
    a.bind(&mut wrap_source);
    a.bind(&mut pin_still_high);
    a.mov_with_delay(MovDestination::X, MovOperation::None, MovSource::ISR, 1);
    a.jmp(JmpCondition::XDecNonZero, &mut eop);
    a.bind(&mut pin_went_high);
    a.mov_with_delay(MovDestination::ISR, MovOperation::None, MovSource::NULL, 1);
    a.irq(false, false, DECODER_TRIGGER, IrqIndexMode::DIRECT);
    push_in(&mut a, InSource::PINS);
    a.jmp(JmpCondition::PinHigh, &mut pin_still_high);
    a.jmp(JmpCondition::Always, &mut pin_went_low);
    assert_same(usb_edge_detector_program(), a.assemble_with_wrap(wrap_source, wrap_target));
}

#[test]
fn decoder_text() {
    let mut a = Assembler::<32>::new();
    let mut wrap_target = a.label();
    let mut wrap_source = a.label();
    let mut irq_wait = a.label();
    let mut flip = a.label();
    let mut pin_high = a.label();
    let mut zero = a.label();
    let mut one = a.label();
    a.bind(&mut wrap_target);
    a.set(SetDestination::Y, 6);
    a.bind(&mut irq_wait);
    a.wait(1, WaitSource::IRQ, DECODER_TRIGGER, false);
    a.jmp(JmpCondition::YIsZero, &mut flip);
    a.jmp(JmpCondition::PinHigh, &mut pin_high);
    a.jmp(JmpCondition::XIsZero, &mut one);
    a.bind(&mut zero);
    push_in(&mut a, InSource::NULL);
    a.bind(&mut flip);
    a.mov(MovDestination::X, MovOperation::Invert, MovSource::X);
    a.bind(&mut wrap_source);
    a.bind(&mut pin_high);
    a.jmp(JmpCondition::XIsZero, &mut zero);
    a.bind(&mut one);
    push_in(&mut a, InSource::OSR);
    a.jmp(JmpCondition::YDecNonZero, &mut irq_wait);
    assert_same(usb_nrzi_decoder_program(), a.assemble_with_wrap(wrap_source, wrap_target));
}

#[test]
fn programs_fill_the_instruction_memory() {
    let n = usb_tx_j_high_on_lower_program().code.len()
        + usb_edge_detector_program().code.len()
        + usb_nrzi_decoder_program().code.len();
    assert_eq!(n, 32);
}

#[test]
fn exec_instructions() {
    assert_eq!(
        DECODER_PRIME_OSR,
        encode_plain(InstructionOperands::MOV {
            destination: MovDestination::OSR,
            op: MovOperation::Invert,
            source: MovSource::NULL,
        })
    );
    assert_eq!(
        DECODER_PRIME_X,
        encode_plain(InstructionOperands::SET { destination: SetDestination::X, data: 0 })
    );
    for (instr, destination, data) in [
        (SET_PINDIRS_OUT, SetDestination::PINDIRS, 3),
        (SET_PINDIRS_IN, SetDestination::PINDIRS, 0),
        (SET_PINS_SE0, SetDestination::PINS, 0),
    ] {
        assert_eq!(instr, encode_plain(InstructionOperands::SET { destination, data }));
    }
}

#[test]
fn irq_flags_do_not_overlap() {
    assert_eq!(IRQ_RX_ALL, (1 << IRQ_RX_EOP) | (1 << IRQ_RX_START) | (1 << DECODER_TRIGGER));
    assert_eq!(IRQ_RX_ARM, (1 << IRQ_RX_START) | (1 << DECODER_TRIGGER));
    assert_eq!(IRQ_RX_ALL & IRQ_TX_EOP_BIT, 0);
}

#[test]
fn state_machines_are_distinct() {
    assert_eq!([TX_SM, DETECTOR_SM, DECODER_SM], [0, 1, 2]);
}

/// Runs the decoder's words on line levels, one per trigger, as the state machine
/// would; the pin is inverted, so it reads high when the line is low.
fn run_decoder(line_high: &[bool]) -> Vec<bool> {
    let code = usb_nrzi_decoder_program().code;
    let (mut pc, mut x, mut y) = (0usize, 0u32, 0u32);
    let mut out = Vec::new();
    let mut levels = line_high.iter();
    let mut pin = false;
    loop {
        let instr = code[pc];
        let target = (instr & 0x1f) as usize;
        let mut next = if pc == 6 { 0 } else { pc + 1 };
        match instr >> 13 {
            0 => match (instr >> 5) & 7 {
                1 if x == 0 => next = target,
                3 if y == 0 => next = target,
                4 => {
                    if y != 0 {
                        next = target;
                    }
                    y = y.wrapping_sub(1);
                }
                6 if pin => next = target,
                1 | 3 | 6 => {}
                other => panic!("jump condition {}", other),
            },
            1 => match levels.next() {
                Some(high) => pin = !*high,
                None => return out,
            },
            2 => out.push((instr >> 5) & 7 == 7),
            5 => x = !x,
            7 => y = u32::from(instr & 0x1f),
            other => panic!("opcode {}", other),
        }
        pc = next;
    }
}

#[test]
fn decoder_reads_a_stuffed_line() {
    // 0xff 0x7e after SYNC, bit-stuffed, NRZI from idle J (high)
    let bytes = [0x80u8, 0xff, 0x7e];
    let mut bits = Vec::new();
    let mut stuffed = Vec::new();
    let mut ones = 0;
    for b in bytes {
        for i in 0..8 {
            let bit = (b >> i) & 1 == 1;
            bits.push(bit);
            stuffed.push(bit);
            ones = if bit { ones + 1 } else { 0 };
            if ones == 6 {
                stuffed.push(false);
                ones = 0;
            }
        }
    }
    let mut level = true;
    let mut line = Vec::new();
    for bit in stuffed {
        if !bit {
            level = !level;
        }
        line.push(level);
    }
    assert_eq!(run_decoder(&line), bits);
}

/// Runs the edge detector's words on line symbols of eight cycles each and gives the
/// flags that it raises with their cycles. Symbols are those of the player.
fn run_detector(line: &[u8]) -> Vec<(u16, usize)> {
    let code = usb_edge_detector_program().code;
    let (mut pc, mut rest, mut x, mut isr) = (1usize, 0u16, 0u32, 0u32);
    let mut raised = Vec::new();
    for (i, sym) in line.iter().enumerate() {
        let (jmp_pin, in_pin) = (*sym != 3, *sym != 1);
        for cycle in 8 * i..8 * i + 8 {
            if rest > 0 {
                rest -= 1;
                continue;
            }
            let instr = code[pc];
            rest = (instr >> 8) & 0x1f;
            let mut next = if pc == 9 { 3 } else { pc + 1 };
            match instr >> 13 {
                0 => {
                    let taken = match (instr >> 5) & 7 {
                        0 => true,
                        2 => {
                            let nonzero = x != 0;
                            x = x.wrapping_sub(1);
                            nonzero
                        }
                        6 => jmp_pin,
                        other => panic!("jump condition {}", other),
                    };
                    if taken {
                        next = (instr & 0x1f) as usize;
                    }
                }
                2 => isr = isr << 1 | u32::from(in_pin),
                5 => match (instr >> 5) & 7 {
                    1 => x = isr,
                    6 => isr = 0,
                    other => panic!("move to {}", other),
                },
                6 => {
                    raised.push((instr & 7, cycle));
                    if instr & 0x20 != 0 {
                        return raised;
                    }
                }
                other => panic!("opcode {}", other),
            }
            pc = next;
        }
    }
    raised
}

#[test]
fn detector_triggers_once_per_symbol() {
    // K J K J K J K K (SYNC), then a run of J and K
    let syms = [3u8, 1, 3, 1, 3, 1, 3, 3, 1, 1, 1, 1, 1, 1, 3, 3, 3, 1];
    let mut line = syms.to_vec();
    line.extend([0, 0]);
    let mut want = vec![(3u16, 1usize)];
    want.extend((0..=syms.len()).map(|k| (4, 8 * k + 3)));
    want.push((2, 8 * syms.len() + 9));
    assert_eq!(run_detector(&line), want);
}

#[test]
fn detector_and_decoder_read_a_packet() {
    use_received(&[0x80, 0xd2]);
    use_received(&[0x80, 0xc3, 0xff, 0xff, 0xfe, 0x00]);
}

/// Sends bytes over a simulated line and expects them from the decoder.
fn use_received(bytes: &[u8]) {
    let mut words = [0u32; 40];
    let mut scratch = [0u8; 160];
    let n = rp_pio_usb_host::encoding::encode(bytes, &mut scratch, &mut words).unwrap();
    let mut line = Vec::new();
    for w in &words[..n] {
        for i in 0..16 {
            line.push(((w >> (30 - 2 * i)) & 3) as u8);
        }
    }
    let end = line.iter().position(|s| *s == 0).unwrap();
    line.truncate(end);
    line.extend([0, 0]);
    let levels: Vec<bool> = run_detector(&line)
        .iter()
        .filter(|r| r.0 == 4)
        .map(|r| line[r.1 / 8] == 1)
        .collect();
    let bits = run_decoder(&levels);
    let got: Vec<u8> = bits
        .chunks_exact(8)
        .map(|c| (0..8).fold(0u8, |a, i| a | (u8::from(c[i]) << i)))
        .collect();
    assert_eq!(got, bytes);
}

/// Runs a player's words on symbols; gives the pins and whether they are driven, for
/// each cycle.
fn run_player(code: [u16; 5], syms: &[u8], cycles: usize) -> Vec<(u16, bool)> {
    let (mut pc, mut rest, mut taken) = (4usize, 0u16, 0usize);
    let (mut value, mut driven) = (0u16, false);
    let mut lines = Vec::new();
    for _ in 0..cycles {
        if rest > 0 {
            rest -= 1;
        } else {
            let instr = code[pc];
            value = (instr >> 11) & 3;
            let next = if pc == 4 { 1 } else { pc + 1 };
            match instr >> 13 {
                3 => {
                    if taken < syms.len() {
                        pc = syms[taken] as usize;
                        taken += 1;
                        rest = (instr >> 8) & 7;
                    }
                }
                6 => {
                    pc = next;
                    rest = (instr >> 8) & 7;
                }
                7 => {
                    driven = instr & 0x1f != 0;
                    pc = next;
                    rest = (instr >> 8) & 7;
                }
                other => panic!("opcode {}", other),
            }
        }
        lines.push((value, driven));
    }
    lines
}

#[test]
fn player_waveform() {
    for (program, j, k) in [
        (usb_tx_j_high_on_lower_program(), 1u16, 2u16),
        (usb_tx_j_high_on_higher_program(), 2, 1),
    ] {
        let line = [3u8, 1, 3, 3, 1];
        let mut syms = line.to_vec();
        syms.extend([0, 2, 1, 1]);
        let mut want = vec![(j, true); 5];
        for s in line {
            want.extend([(if s == 1 { j } else { k }, true); 4]);
        }
        want.extend([(0, true); 8]);
        want.extend([(j, true); 4]);
        want.extend([(j, false); 4]);
        assert_eq!(run_player(program.code, &syms, want.len()), want);
        assert!(run_player(program.code, &syms, 200)[want.len()..].iter().all(|l| !l.1));
    }
}
