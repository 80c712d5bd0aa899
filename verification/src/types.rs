//! Values that the port reports to its user.
use vstd::prelude::*;

verus! {

/// Speed of a device or port.
#[derive(Debug, Clone, Copy, PartialEq, Eq, Structural)]
pub enum Speed {
    /// 1.5 Mbit/s
    Low,
    /// 12 Mbit/s
    Full,
    /// 480 Mbit/s
    High,
}

/// A device has been attached or detached.
#[derive(Debug, Clone, Copy, PartialEq, Eq, Structural)]
pub enum DeviceEvent {
    /// A device has become attached to the root port.
    Connected(Speed),
    /// The device has been detached.
    Disconnected,
}

/// Errors of a transfer.
#[derive(Debug, Clone, Copy, PartialEq, Eq, Structural)]
pub enum PipeError {
    /// The data is too long for its packet or buffer.
    BufferOverflow,
    /// The device sent more data than expected.
    Babble,
    /// The device endpoint is stalled.
    Stall,
    /// The device did not respond in time.
    Timeout,
}

} // verus!
