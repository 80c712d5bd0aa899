//! USB packet identifier constants.
//!
//! Values are the on-the-wire PID bytes (low PID nibble plus one's-complement
//! high nibble) defined by USB 2.0 §8.3.1.
use vstd::prelude::*;

verus! {

/// SYNC byte used at the start of low-/full-speed packets.
pub const USB_SYNC: u8 = 0x80;

/// Start-of-frame token PID.
pub const USB_PID_SOF: u8 = 0xA5;

/// SETUP token PID.
pub const USB_PID_SETUP: u8 = 0x2D;

/// IN token PID.
pub const USB_PID_IN: u8 = 0x69;

/// OUT token PID.
pub const USB_PID_OUT: u8 = 0xE1;

/// DATA0 packet PID.
pub const USB_PID_DATA0: u8 = 0xC3;

/// DATA1 packet PID.
pub const USB_PID_DATA1: u8 = 0x4B;

/// ACK handshake PID.
pub const USB_PID_ACK: u8 = 0xD2;

/// NAK handshake PID.
pub const USB_PID_NAK: u8 = 0x5A;

/// STALL handshake PID.
pub const USB_PID_STALL: u8 = 0x1E;

/// Whether `pid` is one of the two DATA PIDs a low-/full-speed device sends.
pub open spec fn is_data_pid(pid: u8) -> bool {
    pid == USB_PID_DATA0 || pid == USB_PID_DATA1
}

/// The DATA PID that carries the given data toggle.
pub open spec fn data_pid(data1: bool) -> u8 {
    if data1 {
        USB_PID_DATA1
    } else {
        USB_PID_DATA0
    }
}

/// The DATA PIDs are the two that carry a toggle: DATA1 and DATA0.
pub proof fn law_data_pids_carry_toggles(pid: u8, data1: bool)
    ensures
        data_pid(data1) == (if data1 {
            0x4Bu8
        } else {
            0xC3u8
        }),
        is_data_pid(pid) <==> pid == data_pid(true) || pid == data_pid(false),
        data_pid(data1) != data_pid(!data1),
{
}

} // verus!
