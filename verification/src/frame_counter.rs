//! The frame number of start-of-frame packets.
use vstd::prelude::*;

verus! {

/// Number of frame numbers: they have eleven bits (USB 2.0 §8.4.3).
pub const FRAME_NUMBERS: u16 = 0x800;

/// The frame number behind `frame`.
pub open spec fn next_frame_number(frame: u16) -> u16 {
    ((frame + 1) % 0x800) as u16
}

/// Advance an 11-bit frame number, wrapping to zero.
pub fn advance_frame(frame: u16) -> (next: u16)
    ensures
        next == next_frame_number(frame),
        next < FRAME_NUMBERS,
{
    let next = frame.wrapping_add(1);
    assert(next & 0x7ff == next % 0x800) by (bit_vector);
    next & 0x7ff
}

/// SOF frame counter (11 bit, wrapping)
///
/// Incremented every frame (1ms), even if we don't actually send a SOF because
/// the bus is busy at the time.
pub struct FrameCounter {
    counter: u16,
}

impl FrameCounter {
    /// The frame number that was handed out last; zero before the first.
    pub closed spec fn frame(&self) -> u16 {
        self.counter
    }

    /// The counter holds an 11-bit frame number.
    pub closed spec fn wf(&self) -> bool {
        self.counter < FRAME_NUMBERS
    }

    /// Create a new frame counter
    pub fn new() -> (r: Self)
        ensures
            r.wf(),
            r.frame() == 0,
    {
        FrameCounter { counter: 0 }
    }

    /// Get the next frame number
    pub fn next(&mut self) -> (next: u16)
        requires
            old(self).wf(),
        ensures
            final(self).wf(),
            final(self).frame() == next,
            next == next_frame_number(old(self).frame()),
            next < FRAME_NUMBERS,
    {
        let next = advance_frame(self.counter);
        self.counter = next;
        next
    }
}

/// The frame number that `n` frames lead to from `frame`.
pub open spec fn frame_after(frame: u16, n: nat) -> u16
    decreases n,
{
    if n == 0 {
        frame
    } else {
        next_frame_number(frame_after(frame, (n - 1) as nat))
    }
}

/// Frame numbers count modulo 2048.
pub proof fn law_frame_numbers_wrap(frame: u16, n: nat)
    requires
        frame < FRAME_NUMBERS,
    ensures
        frame_after(frame, n) == (frame + n) % 0x800,
    decreases n,
{
    if n > 0 {
        law_frame_numbers_wrap(frame, (n - 1) as nat);
    }
}

/// The number behind any frame number is one more, modulo 2048.
pub proof fn law_next_frame_number(frame: u16)
    ensures
        next_frame_number(frame) < 2048,
        (next_frame_number(frame) - frame - 1) % 2048 == 0,
{
}

} // verus!
