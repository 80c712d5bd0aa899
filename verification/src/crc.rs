//! USB CRC5 and CRC16.
//!
//! USB 2.0 §8.3.5 defines both: the remainder register starts as all ones, takes
//! the protected field bit by bit in wire order, and is sent inverted.
use crate::bits;
use vstd::prelude::*;

verus! {

/// USB CRC5 lookup table for token and SOF fields.
///
/// USB 2.0 §8.3.5 defines the CRC fields; token and SOF packets use CRC5 over
/// the 11-bit token payload. Entry `x` is the register `x` after five zero bits.
pub const CRC5_TBL: [u8; 32] = [
    0x00, 0x0b, 0x16, 0x1d, 0x05, 0x0e, 0x13, 0x18, 0x0a, 0x01, 0x1c, 0x17, 0x0f, 0x04, 0x19, 0x12,
    0x14, 0x1f, 0x02, 0x09, 0x11, 0x1a, 0x07, 0x0c, 0x1e, 0x15, 0x08, 0x03, 0x1b, 0x10, 0x0d, 0x06,
];

/// USB CRC16 residue after processing a valid `payload + appended CRC16`.
///
/// The USB CRC16 is the reflected form of the polynomial in USB 2.0 §8.3.5,
/// seeded with `0xffff`. The RX path updates the running CRC as bytes arrive and
/// compares against this residue at EOP so no post-packet CRC pass is needed.
pub const USB_CRC16_RESIDUE: u16 = 0xB001;

/// USB CRC16 lookup table.
///
/// Entry `x` is the register `x` after eight zero bits. A table update is fast
/// enough to run per received byte; a bitwise CRC pass at EOP would delay the
/// host ACK turnaround.
pub const CRC16_TBL: [u16; 256] = [
    0x0000, 0xC0C1, 0xC181, 0x0140, 0xC301, 0x03C0, 0x0280, 0xC241,
    0xC601, 0x06C0, 0x0780, 0xC741, 0x0500, 0xC5C1, 0xC481, 0x0440,
    0xCC01, 0x0CC0, 0x0D80, 0xCD41, 0x0F00, 0xCFC1, 0xCE81, 0x0E40,
    0x0A00, 0xCAC1, 0xCB81, 0x0B40, 0xC901, 0x09C0, 0x0880, 0xC841,
    0xD801, 0x18C0, 0x1980, 0xD941, 0x1B00, 0xDBC1, 0xDA81, 0x1A40,
    0x1E00, 0xDEC1, 0xDF81, 0x1F40, 0xDD01, 0x1DC0, 0x1C80, 0xDC41,
    0x1400, 0xD4C1, 0xD581, 0x1540, 0xD701, 0x17C0, 0x1680, 0xD641,
    0xD201, 0x12C0, 0x1380, 0xD341, 0x1100, 0xD1C1, 0xD081, 0x1040,
    0xF001, 0x30C0, 0x3180, 0xF141, 0x3300, 0xF3C1, 0xF281, 0x3240,
    0x3600, 0xF6C1, 0xF781, 0x3740, 0xF501, 0x35C0, 0x3480, 0xF441,
    0x3C00, 0xFCC1, 0xFD81, 0x3D40, 0xFF01, 0x3FC0, 0x3E80, 0xFE41,
    0xFA01, 0x3AC0, 0x3B80, 0xFB41, 0x3900, 0xF9C1, 0xF881, 0x3840,
    0x2800, 0xE8C1, 0xE981, 0x2940, 0xEB01, 0x2BC0, 0x2A80, 0xEA41,
    0xEE01, 0x2EC0, 0x2F80, 0xEF41, 0x2D00, 0xEDC1, 0xEC81, 0x2C40,
    0xE401, 0x24C0, 0x2580, 0xE541, 0x2700, 0xE7C1, 0xE681, 0x2640,
    0x2200, 0xE2C1, 0xE381, 0x2340, 0xE101, 0x21C0, 0x2080, 0xE041,
    0xA001, 0x60C0, 0x6180, 0xA141, 0x6300, 0xA3C1, 0xA281, 0x6240,
    0x6600, 0xA6C1, 0xA781, 0x6740, 0xA501, 0x65C0, 0x6480, 0xA441,
    0x6C00, 0xACC1, 0xAD81, 0x6D40, 0xAF01, 0x6FC0, 0x6E80, 0xAE41,
    0xAA01, 0x6AC0, 0x6B80, 0xAB41, 0x6900, 0xA9C1, 0xA881, 0x6840,
    0x7800, 0xB8C1, 0xB981, 0x7940, 0xBB01, 0x7BC0, 0x7A80, 0xBA41,
    0xBE01, 0x7EC0, 0x7F80, 0xBF41, 0x7D00, 0xBDC1, 0xBC81, 0x7C40,
    0xB401, 0x74C0, 0x7580, 0xB541, 0x7700, 0xB7C1, 0xB681, 0x7640,
    0x7200, 0xB2C1, 0xB381, 0x7340, 0xB101, 0x71C0, 0x7080, 0xB041,
    0x5000, 0x90C1, 0x9181, 0x5140, 0x9301, 0x53C0, 0x5280, 0x9241,
    0x9601, 0x56C0, 0x5780, 0x9741, 0x5500, 0x95C1, 0x9481, 0x5440,
    0x9C01, 0x5CC0, 0x5D80, 0x9D41, 0x5F00, 0x9FC1, 0x9E81, 0x5E40,
    0x5A00, 0x9AC1, 0x9B81, 0x5B40, 0x9901, 0x59C0, 0x5880, 0x9841,
    0x8801, 0x48C0, 0x4980, 0x8941, 0x4B00, 0x8BC1, 0x8A81, 0x4A40,
    0x4E00, 0x8EC1, 0x8F81, 0x4F40, 0x8D01, 0x4DC0, 0x4C80, 0x8C41,
    0x4400, 0x84C1, 0x8581, 0x4540, 0x8701, 0x47C0, 0x4680, 0x8641,
    0x8201, 0x42C0, 0x4380, 0x8341, 0x4100, 0x81C1, 0x8081, 0x4040,
];

/// One step of the reflected CRC16 register: take one bit, shift towards bit 0,
/// and subtract the polynomial when the bit that leaves differs from the input.
pub open spec fn crc16_step(crc: u16, bit: bool) -> u16 {
    if (crc & 1 == 1) != bit {
        (crc >> 1) ^ 0xA001
    } else {
        crc >> 1
    }
}

/// The CRC16 register `seed` after the bits of `bits`, first to last.
pub open spec fn crc16_register(seed: u16, bits: Seq<bool>) -> u16
    decreases bits.len(),
{
    if bits.len() == 0 {
        seed
    } else {
        crc16_step(crc16_register(seed, bits.drop_last()), bits.last())
    }
}

/// The running CRC16 remainder of a byte string, before the final inversion.
pub open spec fn crc16_running(data: Seq<u8>) -> u16 {
    crc16_register(0xffff, bits::bits_of(data))
}

/// The CRC16 of a DATA payload: the inverted remainder.
pub open spec fn crc16_spec(data: Seq<u8>) -> u16 {
    crc16_running(data) ^ 0xffff
}

/// Low byte of a CRC16, the first of the two on the wire.
pub open spec fn crc_lo(crc: u16) -> u8 {
    (crc & 0xff) as u8
}

/// High byte of a CRC16, the second of the two on the wire.
pub open spec fn crc_hi(crc: u16) -> u8 {
    (crc >> 8) as u8
}

/// One step of the reflected CRC5 register.
pub open spec fn crc5_step(crc: u8, bit: bool) -> u8 {
    if (crc & 1 == 1) != bit {
        (crc >> 1) ^ 0x14
    } else {
        crc >> 1
    }
}

/// The CRC5 register `seed` after the bits of `bits`, first to last.
pub open spec fn crc5_register(seed: u8, bits: Seq<bool>) -> u8
    decreases bits.len(),
{
    if bits.len() == 0 {
        seed
    } else {
        crc5_step(crc5_register(seed, bits.drop_last()), bits.last())
    }
}

/// The eleven bits of a token or SOF field, least significant first.
pub open spec fn field_bits(data: u16) -> Seq<bool> {
    Seq::new(11, |i: int| (data >> (i as u16)) & 1 == 1)
}

/// The CRC5 of an 11-bit token or SOF field.
pub open spec fn crc5_spec(data: u16) -> u8 {
    crc5_register(0x1f, field_bits(data)) ^ 0x1f
}

/// Entry `x` of the CRC16 table as the sum of the entries of the bits of `x`.
spec fn table_entry16(x: u16) -> u16 {
    (if x & 0x01 != 0 { 0xC0C1u16 } else { 0 }) ^ (if x & 0x02 != 0 { 0xC181u16 } else { 0 })
        ^ (if x & 0x04 != 0 { 0xC301u16 } else { 0 }) ^ (if x & 0x08 != 0 { 0xC601u16 } else { 0 })
        ^ (if x & 0x10 != 0 { 0xCC01u16 } else { 0 }) ^ (if x & 0x20 != 0 { 0xD801u16 } else { 0 })
        ^ (if x & 0x40 != 0 { 0xF001u16 } else { 0 }) ^ (if x & 0x80 != 0 { 0xA001u16 } else { 0 })
}

/// Entry `x` of the CRC5 table as the sum of the entries of the bits of `x`.
spec fn table_entry5(x: u8) -> u8 {
    (if x & 0x01 != 0 { 0x0bu8 } else { 0 }) ^ (if x & 0x02 != 0 { 0x16u8 } else { 0 })
        ^ (if x & 0x04 != 0 { 0x05u8 } else { 0 }) ^ (if x & 0x08 != 0 { 0x0au8 } else { 0 })
        ^ (if x & 0x10 != 0 { 0x14u8 } else { 0 })
}

/// The entries `lo..hi` of the CRC16 table are right.
spec fn table16_right(lo: int, hi: int) -> bool
    decreases hi - lo,
{
    hi <= lo || (table16_right(lo, hi - 1) && CRC16_TBL@[hi - 1] == table_entry16((hi - 1) as u16))
}

/// The entries `lo..hi` of the CRC5 table are right.
spec fn table5_right(lo: int, hi: int) -> bool
    decreases hi - lo,
{
    hi <= lo || (table5_right(lo, hi - 1) && CRC5_TBL@[hi - 1] == table_entry5((hi - 1) as u8))
}

proof fn lemma_table16_entry(lo: int, hi: int, x: u16)
    requires
        table16_right(lo, hi),
        0 <= lo <= x < hi <= 256,
    ensures
        CRC16_TBL@[x as int] == table_entry16(x),
    decreases hi,
{
    if x < hi - 1 {
        lemma_table16_entry(lo, hi - 1, x);
    }
}

proof fn lemma_table5_entry(lo: int, hi: int, x: u8)
    requires
        table5_right(lo, hi),
        0 <= lo <= x < hi <= 32,
    ensures
        CRC5_TBL@[x as int] == table_entry5(x),
    decreases hi,
{
    if x < hi - 1 {
        lemma_table5_entry(lo, hi - 1, x);
    }
}

proof fn lemma_table16(x: u16)
    requires
        x < 256,
    ensures
        CRC16_TBL@[x as int] == table_entry16(x),
{
    if x < 64 {
        lemma_table16_quarter0(x);
    } else if x < 128 {
        lemma_table16_quarter1(x);
    } else if x < 192 {
        lemma_table16_quarter2(x);
    } else {
        lemma_table16_quarter3(x);
    }
}

proof fn lemma_table16_quarter0(x: u16)
    requires
        0 <= x < 64,
    ensures
        CRC16_TBL@[x as int] == table_entry16(x),
{
    assert(
        table_entry16(0x00) == 0x0000 && table_entry16(0x01) == 0xC0C1
        && table_entry16(0x02) == 0xC181 && table_entry16(0x03) == 0x0140
        && table_entry16(0x04) == 0xC301 && table_entry16(0x05) == 0x03C0
        && table_entry16(0x06) == 0x0280 && table_entry16(0x07) == 0xC241
        && table_entry16(0x08) == 0xC601 && table_entry16(0x09) == 0x06C0
        && table_entry16(0x0a) == 0x0780 && table_entry16(0x0b) == 0xC741
        && table_entry16(0x0c) == 0x0500 && table_entry16(0x0d) == 0xC5C1
        && table_entry16(0x0e) == 0xC481 && table_entry16(0x0f) == 0x0440
        && table_entry16(0x10) == 0xCC01 && table_entry16(0x11) == 0x0CC0
        && table_entry16(0x12) == 0x0D80 && table_entry16(0x13) == 0xCD41
        && table_entry16(0x14) == 0x0F00 && table_entry16(0x15) == 0xCFC1
        && table_entry16(0x16) == 0xCE81 && table_entry16(0x17) == 0x0E40
        && table_entry16(0x18) == 0x0A00 && table_entry16(0x19) == 0xCAC1
        && table_entry16(0x1a) == 0xCB81 && table_entry16(0x1b) == 0x0B40
        && table_entry16(0x1c) == 0xC901 && table_entry16(0x1d) == 0x09C0
        && table_entry16(0x1e) == 0x0880 && table_entry16(0x1f) == 0xC841
        && table_entry16(0x20) == 0xD801 && table_entry16(0x21) == 0x18C0
        && table_entry16(0x22) == 0x1980 && table_entry16(0x23) == 0xD941
        && table_entry16(0x24) == 0x1B00 && table_entry16(0x25) == 0xDBC1
        && table_entry16(0x26) == 0xDA81 && table_entry16(0x27) == 0x1A40
        && table_entry16(0x28) == 0x1E00 && table_entry16(0x29) == 0xDEC1
        && table_entry16(0x2a) == 0xDF81 && table_entry16(0x2b) == 0x1F40
        && table_entry16(0x2c) == 0xDD01 && table_entry16(0x2d) == 0x1DC0
        && table_entry16(0x2e) == 0x1C80 && table_entry16(0x2f) == 0xDC41
        && table_entry16(0x30) == 0x1400 && table_entry16(0x31) == 0xD4C1
        && table_entry16(0x32) == 0xD581 && table_entry16(0x33) == 0x1540
        && table_entry16(0x34) == 0xD701 && table_entry16(0x35) == 0x17C0
        && table_entry16(0x36) == 0x1680 && table_entry16(0x37) == 0xD641
        && table_entry16(0x38) == 0xD201 && table_entry16(0x39) == 0x12C0
        && table_entry16(0x3a) == 0x1380 && table_entry16(0x3b) == 0xD341
        && table_entry16(0x3c) == 0x1100 && table_entry16(0x3d) == 0xD1C1
        && table_entry16(0x3e) == 0xD081 && table_entry16(0x3f) == 0x1040
    ) by (bit_vector);
    reveal_with_fuel(table16_right, 65);
    assert(table16_right(0, 64));
    lemma_table16_entry(0, 64, x);
}

proof fn lemma_table16_quarter1(x: u16)
    requires
        64 <= x < 128,
    ensures
        CRC16_TBL@[x as int] == table_entry16(x),
{
    assert(
        table_entry16(0x40) == 0xF001 && table_entry16(0x41) == 0x30C0
        && table_entry16(0x42) == 0x3180 && table_entry16(0x43) == 0xF141
        && table_entry16(0x44) == 0x3300 && table_entry16(0x45) == 0xF3C1
        && table_entry16(0x46) == 0xF281 && table_entry16(0x47) == 0x3240
        && table_entry16(0x48) == 0x3600 && table_entry16(0x49) == 0xF6C1
        && table_entry16(0x4a) == 0xF781 && table_entry16(0x4b) == 0x3740
        && table_entry16(0x4c) == 0xF501 && table_entry16(0x4d) == 0x35C0
        && table_entry16(0x4e) == 0x3480 && table_entry16(0x4f) == 0xF441
        && table_entry16(0x50) == 0x3C00 && table_entry16(0x51) == 0xFCC1
        && table_entry16(0x52) == 0xFD81 && table_entry16(0x53) == 0x3D40
        && table_entry16(0x54) == 0xFF01 && table_entry16(0x55) == 0x3FC0
        && table_entry16(0x56) == 0x3E80 && table_entry16(0x57) == 0xFE41
        && table_entry16(0x58) == 0xFA01 && table_entry16(0x59) == 0x3AC0
        && table_entry16(0x5a) == 0x3B80 && table_entry16(0x5b) == 0xFB41
        && table_entry16(0x5c) == 0x3900 && table_entry16(0x5d) == 0xF9C1
        && table_entry16(0x5e) == 0xF881 && table_entry16(0x5f) == 0x3840
        && table_entry16(0x60) == 0x2800 && table_entry16(0x61) == 0xE8C1
        && table_entry16(0x62) == 0xE981 && table_entry16(0x63) == 0x2940
        && table_entry16(0x64) == 0xEB01 && table_entry16(0x65) == 0x2BC0
        && table_entry16(0x66) == 0x2A80 && table_entry16(0x67) == 0xEA41
        && table_entry16(0x68) == 0xEE01 && table_entry16(0x69) == 0x2EC0
        && table_entry16(0x6a) == 0x2F80 && table_entry16(0x6b) == 0xEF41
        && table_entry16(0x6c) == 0x2D00 && table_entry16(0x6d) == 0xEDC1
        && table_entry16(0x6e) == 0xEC81 && table_entry16(0x6f) == 0x2C40
        && table_entry16(0x70) == 0xE401 && table_entry16(0x71) == 0x24C0
        && table_entry16(0x72) == 0x2580 && table_entry16(0x73) == 0xE541
        && table_entry16(0x74) == 0x2700 && table_entry16(0x75) == 0xE7C1
        && table_entry16(0x76) == 0xE681 && table_entry16(0x77) == 0x2640
        && table_entry16(0x78) == 0x2200 && table_entry16(0x79) == 0xE2C1
        && table_entry16(0x7a) == 0xE381 && table_entry16(0x7b) == 0x2340
        && table_entry16(0x7c) == 0xE101 && table_entry16(0x7d) == 0x21C0
        && table_entry16(0x7e) == 0x2080 && table_entry16(0x7f) == 0xE041
    ) by (bit_vector);
    reveal_with_fuel(table16_right, 65);
    assert(table16_right(64, 128));
    lemma_table16_entry(64, 128, x);
}

proof fn lemma_table16_quarter2(x: u16)
    requires
        128 <= x < 192,
    ensures
        CRC16_TBL@[x as int] == table_entry16(x),
{
    assert(
        table_entry16(0x80) == 0xA001 && table_entry16(0x81) == 0x60C0
        && table_entry16(0x82) == 0x6180 && table_entry16(0x83) == 0xA141
        && table_entry16(0x84) == 0x6300 && table_entry16(0x85) == 0xA3C1
        && table_entry16(0x86) == 0xA281 && table_entry16(0x87) == 0x6240
        && table_entry16(0x88) == 0x6600 && table_entry16(0x89) == 0xA6C1
        && table_entry16(0x8a) == 0xA781 && table_entry16(0x8b) == 0x6740
        && table_entry16(0x8c) == 0xA501 && table_entry16(0x8d) == 0x65C0
        && table_entry16(0x8e) == 0x6480 && table_entry16(0x8f) == 0xA441
        && table_entry16(0x90) == 0x6C00 && table_entry16(0x91) == 0xACC1
        && table_entry16(0x92) == 0xAD81 && table_entry16(0x93) == 0x6D40
        && table_entry16(0x94) == 0xAF01 && table_entry16(0x95) == 0x6FC0
        && table_entry16(0x96) == 0x6E80 && table_entry16(0x97) == 0xAE41
        && table_entry16(0x98) == 0xAA01 && table_entry16(0x99) == 0x6AC0
        && table_entry16(0x9a) == 0x6B80 && table_entry16(0x9b) == 0xAB41
        && table_entry16(0x9c) == 0x6900 && table_entry16(0x9d) == 0xA9C1
        && table_entry16(0x9e) == 0xA881 && table_entry16(0x9f) == 0x6840
        && table_entry16(0xa0) == 0x7800 && table_entry16(0xa1) == 0xB8C1
        && table_entry16(0xa2) == 0xB981 && table_entry16(0xa3) == 0x7940
        && table_entry16(0xa4) == 0xBB01 && table_entry16(0xa5) == 0x7BC0
        && table_entry16(0xa6) == 0x7A80 && table_entry16(0xa7) == 0xBA41
        && table_entry16(0xa8) == 0xBE01 && table_entry16(0xa9) == 0x7EC0
        && table_entry16(0xaa) == 0x7F80 && table_entry16(0xab) == 0xBF41
        && table_entry16(0xac) == 0x7D00 && table_entry16(0xad) == 0xBDC1
        && table_entry16(0xae) == 0xBC81 && table_entry16(0xaf) == 0x7C40
        && table_entry16(0xb0) == 0xB401 && table_entry16(0xb1) == 0x74C0
        && table_entry16(0xb2) == 0x7580 && table_entry16(0xb3) == 0xB541
        && table_entry16(0xb4) == 0x7700 && table_entry16(0xb5) == 0xB7C1
        && table_entry16(0xb6) == 0xB681 && table_entry16(0xb7) == 0x7640
        && table_entry16(0xb8) == 0x7200 && table_entry16(0xb9) == 0xB2C1
        && table_entry16(0xba) == 0xB381 && table_entry16(0xbb) == 0x7340
        && table_entry16(0xbc) == 0xB101 && table_entry16(0xbd) == 0x71C0
        && table_entry16(0xbe) == 0x7080 && table_entry16(0xbf) == 0xB041
    ) by (bit_vector);
    reveal_with_fuel(table16_right, 65);
    assert(table16_right(128, 192));
    lemma_table16_entry(128, 192, x);
}

proof fn lemma_table16_quarter3(x: u16)
    requires
        192 <= x < 256,
    ensures
        CRC16_TBL@[x as int] == table_entry16(x),
{
    assert(
        table_entry16(0xc0) == 0x5000 && table_entry16(0xc1) == 0x90C1
        && table_entry16(0xc2) == 0x9181 && table_entry16(0xc3) == 0x5140
        && table_entry16(0xc4) == 0x9301 && table_entry16(0xc5) == 0x53C0
        && table_entry16(0xc6) == 0x5280 && table_entry16(0xc7) == 0x9241
        && table_entry16(0xc8) == 0x9601 && table_entry16(0xc9) == 0x56C0
        && table_entry16(0xca) == 0x5780 && table_entry16(0xcb) == 0x9741
        && table_entry16(0xcc) == 0x5500 && table_entry16(0xcd) == 0x95C1
        && table_entry16(0xce) == 0x9481 && table_entry16(0xcf) == 0x5440
        && table_entry16(0xd0) == 0x9C01 && table_entry16(0xd1) == 0x5CC0
        && table_entry16(0xd2) == 0x5D80 && table_entry16(0xd3) == 0x9D41
        && table_entry16(0xd4) == 0x5F00 && table_entry16(0xd5) == 0x9FC1
        && table_entry16(0xd6) == 0x9E81 && table_entry16(0xd7) == 0x5E40
        && table_entry16(0xd8) == 0x5A00 && table_entry16(0xd9) == 0x9AC1
        && table_entry16(0xda) == 0x9B81 && table_entry16(0xdb) == 0x5B40
        && table_entry16(0xdc) == 0x9901 && table_entry16(0xdd) == 0x59C0
        && table_entry16(0xde) == 0x5880 && table_entry16(0xdf) == 0x9841
        && table_entry16(0xe0) == 0x8801 && table_entry16(0xe1) == 0x48C0
        && table_entry16(0xe2) == 0x4980 && table_entry16(0xe3) == 0x8941
        && table_entry16(0xe4) == 0x4B00 && table_entry16(0xe5) == 0x8BC1
        && table_entry16(0xe6) == 0x8A81 && table_entry16(0xe7) == 0x4A40
        && table_entry16(0xe8) == 0x4E00 && table_entry16(0xe9) == 0x8EC1
        && table_entry16(0xea) == 0x8F81 && table_entry16(0xeb) == 0x4F40
        && table_entry16(0xec) == 0x8D01 && table_entry16(0xed) == 0x4DC0
        && table_entry16(0xee) == 0x4C80 && table_entry16(0xef) == 0x8C41
        && table_entry16(0xf0) == 0x4400 && table_entry16(0xf1) == 0x84C1
        && table_entry16(0xf2) == 0x8581 && table_entry16(0xf3) == 0x4540
        && table_entry16(0xf4) == 0x8701 && table_entry16(0xf5) == 0x47C0
        && table_entry16(0xf6) == 0x4680 && table_entry16(0xf7) == 0x8641
        && table_entry16(0xf8) == 0x8201 && table_entry16(0xf9) == 0x42C0
        && table_entry16(0xfa) == 0x4380 && table_entry16(0xfb) == 0x8341
        && table_entry16(0xfc) == 0x4100 && table_entry16(0xfd) == 0x81C1
        && table_entry16(0xfe) == 0x8081 && table_entry16(0xff) == 0x4040
    ) by (bit_vector);
    reveal_with_fuel(table16_right, 65);
    assert(table16_right(192, 256));
    lemma_table16_entry(192, 256, x);
}

proof fn lemma_table5(x: u8)
    requires
        x < 32,
    ensures
        CRC5_TBL@[x as int] == table_entry5(x),
{
    if x < 16 {
        lemma_table5_lower(x);
    } else {
        lemma_table5_upper(x);
    }
}

proof fn lemma_table5_lower(x: u8)
    requires
        0 <= x < 16,
    ensures
        CRC5_TBL@[x as int] == table_entry5(x),
{
    assert(
        table_entry5(0x00) == 0x00 && table_entry5(0x01) == 0x0b && table_entry5(0x02) == 0x16 && table_entry5(0x03) == 0x1d
        && table_entry5(0x04) == 0x05 && table_entry5(0x05) == 0x0e && table_entry5(0x06) == 0x13 && table_entry5(0x07) == 0x18
        && table_entry5(0x08) == 0x0a && table_entry5(0x09) == 0x01 && table_entry5(0x0a) == 0x1c && table_entry5(0x0b) == 0x17
        && table_entry5(0x0c) == 0x0f && table_entry5(0x0d) == 0x04 && table_entry5(0x0e) == 0x19 && table_entry5(0x0f) == 0x12
    ) by (bit_vector);
    reveal_with_fuel(table5_right, 17);
    assert(table5_right(0, 16));
    lemma_table5_entry(0, 16, x);
}

proof fn lemma_table5_upper(x: u8)
    requires
        16 <= x < 32,
    ensures
        CRC5_TBL@[x as int] == table_entry5(x),
{
    assert(
        table_entry5(0x10) == 0x14 && table_entry5(0x11) == 0x1f && table_entry5(0x12) == 0x02 && table_entry5(0x13) == 0x09
        && table_entry5(0x14) == 0x11 && table_entry5(0x15) == 0x1a && table_entry5(0x16) == 0x07 && table_entry5(0x17) == 0x0c
        && table_entry5(0x18) == 0x1e && table_entry5(0x19) == 0x15 && table_entry5(0x1a) == 0x08 && table_entry5(0x1b) == 0x03
        && table_entry5(0x1c) == 0x1b && table_entry5(0x1d) == 0x10 && table_entry5(0x1e) == 0x0d && table_entry5(0x1f) == 0x06
    ) by (bit_vector);
    reveal_with_fuel(table5_right, 17);
    assert(table5_right(16, 32));
    lemma_table5_entry(16, 32, x);
}

/// The CRC16 register `crc` after the eight bits of `b`.
pub open spec fn crc16_byte(crc: u16, b: u8) -> u16 {
    crc16_register(crc, bits::bits_of(seq![b]))
}

/// Taking one more byte is taking its bits.
pub proof fn lemma_crc16_push(seed: u16, data: Seq<u8>, b: u8)
    ensures
        crc16_register(seed, bits::bits_of(data.push(b))) == crc16_byte(
            crc16_register(seed, bits::bits_of(data)),
            b,
        ),
{
    lemma_crc16_eight(seed, bits::bits_of(data), b);
    bits::lemma_bits_of_push(data, b);
    let crc = crc16_register(seed, bits::bits_of(data));
    let none = Seq::<u8>::empty();
    bits::lemma_bits_of_push(none, b);
    assert(none.push(b) =~= seq![b]);
    assert(bits::bits_of(none) =~= Seq::<bool>::empty());
    lemma_crc16_eight(crc, Seq::<bool>::empty(), b);
}

/// The eight steps that a byte takes.
spec fn crc16_eight(crc: u16, b: u8) -> u16 {
    let c1 = crc16_step(crc, bits::byte_bit(b, 0));
    let c2 = crc16_step(c1, bits::byte_bit(b, 1));
    let c3 = crc16_step(c2, bits::byte_bit(b, 2));
    let c4 = crc16_step(c3, bits::byte_bit(b, 3));
    let c5 = crc16_step(c4, bits::byte_bit(b, 4));
    let c6 = crc16_step(c5, bits::byte_bit(b, 5));
    let c7 = crc16_step(c6, bits::byte_bit(b, 6));
    crc16_step(c7, bits::byte_bit(b, 7))
}

proof fn lemma_crc16_eight(seed: u16, head: Seq<bool>, b: u8)
    ensures
        crc16_register(
            seed,
            head.push(bits::byte_bit(b, 0)).push(bits::byte_bit(b, 1)).push(bits::byte_bit(b, 2)).push(
                bits::byte_bit(b, 3),
            ).push(bits::byte_bit(b, 4)).push(bits::byte_bit(b, 5)).push(bits::byte_bit(b, 6)).push(
                bits::byte_bit(b, 7),
            ),
        ) == crc16_eight(crc16_register(seed, head), b),
{
    let h1 = head.push(bits::byte_bit(b, 0));
    let h2 = h1.push(bits::byte_bit(b, 1));
    let h3 = h2.push(bits::byte_bit(b, 2));
    let h4 = h3.push(bits::byte_bit(b, 3));
    let h5 = h4.push(bits::byte_bit(b, 4));
    let h6 = h5.push(bits::byte_bit(b, 5));
    let h7 = h6.push(bits::byte_bit(b, 6));
    let h8 = h7.push(bits::byte_bit(b, 7));
    assert(h1.drop_last() =~= head);
    assert(crc16_register(seed, h1) == crc16_step(crc16_register(seed, head), bits::byte_bit(b, 0)));
    assert(h2.drop_last() =~= h1);
    assert(crc16_register(seed, h2) == crc16_step(crc16_register(seed, h1), bits::byte_bit(b, 1)));
    assert(h3.drop_last() =~= h2);
    assert(crc16_register(seed, h3) == crc16_step(crc16_register(seed, h2), bits::byte_bit(b, 2)));
    assert(h4.drop_last() =~= h3);
    assert(crc16_register(seed, h4) == crc16_step(crc16_register(seed, h3), bits::byte_bit(b, 3)));
    assert(h5.drop_last() =~= h4);
    assert(crc16_register(seed, h5) == crc16_step(crc16_register(seed, h4), bits::byte_bit(b, 4)));
    assert(h6.drop_last() =~= h5);
    assert(crc16_register(seed, h6) == crc16_step(crc16_register(seed, h5), bits::byte_bit(b, 5)));
    assert(h7.drop_last() =~= h6);
    assert(crc16_register(seed, h7) == crc16_step(crc16_register(seed, h6), bits::byte_bit(b, 6)));
    assert(h8.drop_last() =~= h7);
    assert(crc16_register(seed, h8) == crc16_step(crc16_register(seed, h7), bits::byte_bit(b, 7)));
}

proof fn lemma_crc16_byte_is_eight(crc: u16, b: u8)
    ensures
        crc16_byte(crc, b) == crc16_eight(crc, b),
{
    let none = Seq::<u8>::empty();
    bits::lemma_bits_of_push(none, b);
    assert(none.push(b) =~= seq![b]);
    assert(bits::bits_of(none) =~= Seq::<bool>::empty());
    lemma_crc16_eight(crc, Seq::<bool>::empty(), b);
}

/// A table update takes the eight bits of a byte at once.
proof fn lemma_crc16_table_step(crc: u16, b: u8)
    ensures
        ((crc ^ b as u16) & 0xff) < 256,
        (crc >> 8) ^ table_entry16((crc ^ b as u16) & 0xff) == crc16_byte(crc, b),
{
    lemma_crc16_byte_is_eight(crc, b);
    let c0 = crc;
    let c1 = crc16_step(c0, bits::byte_bit(b, 0));
    let c2 = crc16_step(c1, bits::byte_bit(b, 1));
    let c3 = crc16_step(c2, bits::byte_bit(b, 2));
    let c4 = crc16_step(c3, bits::byte_bit(b, 3));
    let c5 = crc16_step(c4, bits::byte_bit(b, 4));
    let c6 = crc16_step(c5, bits::byte_bit(b, 5));
    let c7 = crc16_step(c6, bits::byte_bit(b, 6));
    let c8 = crc16_step(c7, bits::byte_bit(b, 7));
    assert(((c0 ^ b as u16) & 0xff) < 256 && (c0 >> 8) ^ table_entry16((c0 ^ b as u16) & 0xff) == c8)
        by (bit_vector)
        requires
            c1 == (if (c0 & 1 == 1) != ((b >> 0u8) & 1 == 1) { (c0 >> 1) ^ 0xA001 } else { c0 >> 1 }),
            c2 == (if (c1 & 1 == 1) != ((b >> 1u8) & 1 == 1) { (c1 >> 1) ^ 0xA001 } else { c1 >> 1 }),
            c3 == (if (c2 & 1 == 1) != ((b >> 2u8) & 1 == 1) { (c2 >> 1) ^ 0xA001 } else { c2 >> 1 }),
            c4 == (if (c3 & 1 == 1) != ((b >> 3u8) & 1 == 1) { (c3 >> 1) ^ 0xA001 } else { c3 >> 1 }),
            c5 == (if (c4 & 1 == 1) != ((b >> 4u8) & 1 == 1) { (c4 >> 1) ^ 0xA001 } else { c4 >> 1 }),
            c6 == (if (c5 & 1 == 1) != ((b >> 5u8) & 1 == 1) { (c5 >> 1) ^ 0xA001 } else { c5 >> 1 }),
            c7 == (if (c6 & 1 == 1) != ((b >> 6u8) & 1 == 1) { (c6 >> 1) ^ 0xA001 } else { c6 >> 1 }),
            c8 == (if (c7 & 1 == 1) != ((b >> 7u8) & 1 == 1) { (c7 >> 1) ^ 0xA001 } else { c7 >> 1 }),
    ;
}

/// Update a running USB CRC16 remainder with one byte.
///
/// Seed with `0xffff` and do not apply the final XOR. This form is used while
/// receiving a packet so validity is known immediately at EOP.
pub fn crc16_update(crc: u16, b: u8) -> (r: u16)
    ensures
        r == crc16_byte(crc, b),
{
    proof {
        lemma_crc16_table_step(crc, b);
        lemma_table16((crc ^ b as u16) & 0xff);
    }
    (crc >> 8) ^ CRC16_TBL[((crc ^ b as u16) & 0xff) as usize]
}

/// Calculate the USB CRC16 appended to a DATA payload.
pub fn calc_crc16(data: &[u8]) -> (r: u16)
    ensures
        r == crc16_spec(data@),
{
    let mut crc: u16 = 0xffff;
    let mut i: usize = 0;
    assert(bits::bits_of(data@.take(0)) =~= Seq::<bool>::empty());
    while i < data.len()
        invariant
            i <= data@.len(),
            crc == crc16_running(data@.take(i as int)),
        decreases data@.len() - i,
    {
        proof {
            lemma_crc16_push(0xffff, data@.take(i as int), data@[i as int]);
            assert(data@.take(i as int).push(data@[i as int]) =~= data@.take(i + 1));
        }
        crc = crc16_update(crc, data[i]);
        i += 1;
    }
    assert(data@.take(i as int) =~= data@);
    crc ^ 0xffff
}

proof fn lemma_crc5_take(f: u16, k: int)
    requires
        0 <= k < 11,
    ensures
        crc5_register(0x1f, field_bits(f).take(k + 1)) == crc5_step(
            crc5_register(0x1f, field_bits(f).take(k)),
            (f >> (k as u16)) & 1 == 1,
        ),
{
    assert(field_bits(f).take(k + 1).drop_last() =~= field_bits(f).take(k));
}

/// Two table lookups take the last ten bits of a field, after the first one.
proof fn lemma_crc5(f: u16, lsb: u8, msb: u8, first: u8, t1: u8)
    requires
        lsb == (((f ^ 0x1f) >> 1) & 0x1f) as u8,
        msb == (((f ^ 0x1f) >> 6) & 0x1f) as u8,
        first == (if (f ^ 0x1f) & 1 != 0 {
            0x14u8
        } else {
            0x00u8
        }),
        t1 == table_entry5(lsb ^ first),
    ensures
        lsb ^ first < 32,
        msb ^ t1 < 32,
        table_entry5(msb ^ t1) ^ 0x1f == crc5_spec(f),
        table_entry5(msb ^ t1) ^ 0x1f < 32,
{
    let r0 = crc5_register(0x1f, field_bits(f).take(0));
    lemma_crc5_take(f, 0);
    let r1 = crc5_register(0x1f, field_bits(f).take(1));
    lemma_crc5_take(f, 1);
    let r2 = crc5_register(0x1f, field_bits(f).take(2));
    lemma_crc5_take(f, 2);
    let r3 = crc5_register(0x1f, field_bits(f).take(3));
    lemma_crc5_take(f, 3);
    let r4 = crc5_register(0x1f, field_bits(f).take(4));
    lemma_crc5_take(f, 4);
    let r5 = crc5_register(0x1f, field_bits(f).take(5));
    lemma_crc5_take(f, 5);
    let r6 = crc5_register(0x1f, field_bits(f).take(6));
    lemma_crc5_take(f, 6);
    let r7 = crc5_register(0x1f, field_bits(f).take(7));
    lemma_crc5_take(f, 7);
    let r8 = crc5_register(0x1f, field_bits(f).take(8));
    lemma_crc5_take(f, 8);
    let r9 = crc5_register(0x1f, field_bits(f).take(9));
    lemma_crc5_take(f, 9);
    let r10 = crc5_register(0x1f, field_bits(f).take(10));
    lemma_crc5_take(f, 10);
    let r11 = crc5_register(0x1f, field_bits(f).take(11));
    assert(field_bits(f).take(11) =~= field_bits(f));
    assert(field_bits(f).take(0) =~= Seq::<bool>::empty());
    assert(lsb ^ first < 32 && msb ^ t1 < 32 && table_entry5(msb ^ t1) ^ 0x1f == r11 ^ 0x1f
        && table_entry5(msb ^ t1) ^ 0x1f < 32) by (bit_vector)
        requires
            lsb == (((f ^ 0x1f) >> 1) & 0x1f) as u8,
            msb == (((f ^ 0x1f) >> 6) & 0x1f) as u8,
            first == (if (f ^ 0x1f) & 1 != 0 { 0x14u8 } else { 0x00u8 }),
            t1 == table_entry5(lsb ^ first),
            r0 == 0x1f,
            r1 == (if (r0 & 1 == 1) != ((f >> 0u16) & 1 == 1) { (r0 >> 1) ^ 0x14 } else { r0 >> 1 }),
            r2 == (if (r1 & 1 == 1) != ((f >> 1u16) & 1 == 1) { (r1 >> 1) ^ 0x14 } else { r1 >> 1 }),
            r3 == (if (r2 & 1 == 1) != ((f >> 2u16) & 1 == 1) { (r2 >> 1) ^ 0x14 } else { r2 >> 1 }),
            r4 == (if (r3 & 1 == 1) != ((f >> 3u16) & 1 == 1) { (r3 >> 1) ^ 0x14 } else { r3 >> 1 }),
            r5 == (if (r4 & 1 == 1) != ((f >> 4u16) & 1 == 1) { (r4 >> 1) ^ 0x14 } else { r4 >> 1 }),
            r6 == (if (r5 & 1 == 1) != ((f >> 5u16) & 1 == 1) { (r5 >> 1) ^ 0x14 } else { r5 >> 1 }),
            r7 == (if (r6 & 1 == 1) != ((f >> 6u16) & 1 == 1) { (r6 >> 1) ^ 0x14 } else { r6 >> 1 }),
            r8 == (if (r7 & 1 == 1) != ((f >> 7u16) & 1 == 1) { (r7 >> 1) ^ 0x14 } else { r7 >> 1 }),
            r9 == (if (r8 & 1 == 1) != ((f >> 8u16) & 1 == 1) { (r8 >> 1) ^ 0x14 } else { r8 >> 1 }),
            r10 == (if (r9 & 1 == 1) != ((f >> 9u16) & 1 == 1) { (r9 >> 1) ^ 0x14 } else { r9 >> 1 }),
            r11 == (if (r10 & 1 == 1) != ((f >> 10u16) & 1 == 1) { (r10 >> 1) ^ 0x14 } else { r10 >> 1 }),
    ;
}

/// Calculate USB CRC5 over an 11-bit token/SOF value.
pub fn calc_crc5(data: u16) -> (r: u8)
    ensures
        r == crc5_spec(data),
        r < 32,
{
    let ghost f = data;
    let data = data ^ 0x1f;
    let lsb = ((data >> 1) & 0x1f) as u8;
    let msb = ((data >> 6) & 0x1f) as u8;
    let first: u8 = if data & 1 != 0 { 0x14 } else { 0x00 };
    proof {
        lemma_crc5(f, lsb, msb, first, table_entry5(lsb ^ first));
        lemma_table5(lsb ^ first);
        lemma_table5(msb ^ table_entry5(lsb ^ first));
    }
    let crc = CRC5_TBL[(lsb ^ first) as usize];
    let crc = CRC5_TBL[(msb ^ crc) as usize];
    crc ^ 0x1f
}

/// A byte string that ends in the CRC16 of what comes before leaves the residue
/// in the running register, and no other byte string does.
///
/// `lo` and `hi` are the two bytes that follow `payload` on the wire.
pub proof fn law_crc16_residue(payload: Seq<u8>, lo: u8, hi: u8)
    ensures
        crc16_running(payload.push(lo).push(hi)) == USB_CRC16_RESIDUE <==> lo == crc_lo(
            crc16_spec(payload),
        ) && hi == crc_hi(crc16_spec(payload)),
{
    let r = crc16_running(payload);
    lemma_crc16_push(0xffff, payload, lo);
    lemma_crc16_push(0xffff, payload.push(lo), hi);
    let m = crc16_byte(r, lo);
    lemma_crc16_table_step(r, lo);
    lemma_crc16_table_step(m, hi);
    let e = crc16_byte(m, hi);
    assert(e == 0xB001 <==> lo == ((r ^ 0xffff) & 0xff) as u8 && hi == ((r ^ 0xffff) >> 8) as u8)
        by (bit_vector)
        requires
            m == (r >> 8) ^ table_entry16((r ^ lo as u16) & 0xff),
            e == (m >> 8) ^ table_entry16((m ^ hi as u16) & 0xff),
    ;
}

/// The bits of a CRC5, least significant first.
pub open spec fn crc5_bits(crc: u8) -> Seq<bool> {
    seq![
        crc & 1 == 1,
        (crc >> 1u8) & 1 == 1,
        (crc >> 2u8) & 1 == 1,
        (crc >> 3u8) & 1 == 1,
        (crc >> 4u8) & 1 == 1,
    ]
}

/// A field that is followed by its CRC5 leaves a fixed residue in the receiver's
/// register, and followed by any other five bits it does not.
pub proof fn law_crc5_residue(field: u16, crc: u8)
    requires
        crc < 32,
    ensures
        crc5_register(0x1f, field_bits(field) + crc5_bits(crc)) == 0x06 <==> crc == crc5_spec(field),
        crc5_spec(field) < 32,
{
    let lsb = (((field ^ 0x1f) >> 1) & 0x1f) as u8;
    let msb = (((field ^ 0x1f) >> 6) & 0x1f) as u8;
    let first: u8 = if (field ^ 0x1f) & 1 != 0 {
        0x14
    } else {
        0x00
    };
    lemma_crc5(field, lsb, msb, first, table_entry5(lsb ^ first));
    let c = crc5_spec(field);
    let r = crc5_register(0x1f, field_bits(field));
    let all = field_bits(field) + crc5_bits(crc);
    assert(all.take(11) =~= field_bits(field));
    assert(all.take(12).drop_last() =~= all.take(11));
    assert(all.take(13).drop_last() =~= all.take(12));
    assert(all.take(14).drop_last() =~= all.take(13));
    assert(all.take(15).drop_last() =~= all.take(14));
    assert(all.drop_last() =~= all.take(15));
    let s1 = crc5_register(0x1f, all.take(12));
    let s2 = crc5_register(0x1f, all.take(13));
    let s3 = crc5_register(0x1f, all.take(14));
    let s4 = crc5_register(0x1f, all.take(15));
    let s5 = crc5_register(0x1f, all);
    assert(s1 == crc5_step(r, crc & 1 == 1));
    assert(s2 == crc5_step(s1, (crc >> 1u8) & 1 == 1));
    assert(s3 == crc5_step(s2, (crc >> 2u8) & 1 == 1));
    assert(s4 == crc5_step(s3, (crc >> 3u8) & 1 == 1));
    assert(s5 == crc5_step(s4, (crc >> 4u8) & 1 == 1));
    assert(s5 == 0x06 <==> crc == c) by (bit_vector)
        requires
            crc < 32,
            c < 32,
            c == r ^ 0x1f,
            s1 == (if (r & 1 == 1) != (crc & 1 == 1) { (r >> 1) ^ 0x14 } else { r >> 1 }),
            s2 == (if (s1 & 1 == 1) != ((crc >> 1u8) & 1 == 1) { (s1 >> 1) ^ 0x14 } else { s1 >> 1 }),
            s3 == (if (s2 & 1 == 1) != ((crc >> 2u8) & 1 == 1) { (s2 >> 1) ^ 0x14 } else { s2 >> 1 }),
            s4 == (if (s3 & 1 == 1) != ((crc >> 3u8) & 1 == 1) { (s3 >> 1) ^ 0x14 } else { s3 >> 1 }),
            s5 == (if (s4 & 1 == 1) != ((crc >> 4u8) & 1 == 1) { (s4 >> 1) ^ 0x14 } else { s4 >> 1 }),
    ;
}

/// Each bit goes through a register of five bits with the polynomial x^5 + x^2 + 1,
/// starting from all ones; and through one of sixteen bits with x^16 + x^15 + x^2 + 1.
pub proof fn law_crc_registers_shift(bits: Seq<bool>, bit: bool)
    ensures
        crc5_register(0x1f, Seq::empty()) == 0x1f,
        crc5_register(0x1f, bits.push(bit)) == {
            let r = crc5_register(0x1f, bits);
            if (r & 1 == 1) == bit {
                r >> 1
            } else {
                (r >> 1) ^ 0x14
            }
        },
        crc16_register(0xffff, Seq::empty()) == 0xffff,
        crc16_register(0xffff, bits.push(bit)) == {
            let r = crc16_register(0xffff, bits);
            if (r & 1 == 1) == bit {
                r >> 1
            } else {
                (r >> 1) ^ 0xA001
            }
        },
{
    assert(bits.push(bit).drop_last() =~= bits);
}

/// What a receiver computes over bytes is what the register holds behind their bits, and
/// a payload's CRC16 is the complement of that.
pub proof fn law_crc16_of_bytes(data: Seq<u8>)
    ensures
        crc16_running(data) == crc16_register(0xffff, bits::bits_of(data)),
        crc16_spec(data) == crc16_running(data) ^ 0xffff,
{
}

} // verus!
