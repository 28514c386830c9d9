use vstd::prelude::*;

verus! {

/// Capacity, in bytes, of each of the two hardware staging buffers, and the
/// upper bound on the length of a registered transmit region. A registered
/// receive region must have exactly this length.
pub const MAX_LENGTH: usize = 256;

/// Result of a syscall.
///
/// - `Success`: the request was accepted.
/// - `EOff`: the tag interface is not selected by a reader yet.
/// - `EBusy`: the resource is occupied (receive path in flight), or the
///   transmit region was already consumed by an earlier request.
/// - `EInval`: invalid argument (region size out of bounds, or a receive was
///   requested with no receive region registered).
/// - `ENoSupport`: unknown selector.
#[derive(Clone, Copy, PartialEq, Eq, Structural, Debug)]
pub enum ReturnCode {
    Success,
    EOff,
    EBusy,
    EInval,
    ENoSupport,
}

/// A request this layer hands to the hardware driver. Ownership of a staging
/// buffer travels inside `TransmitBuffer` and `ReceiveBuffer`: while such an
/// action is outstanding the arbiter no longer holds that buffer, and only
/// the matching completion gives it back.
#[derive(PartialEq, Eq, Debug)]
pub enum HwAction {
    /// Transmit the requested number of bytes from the buffer.
    TransmitBuffer(Vec<u8>, usize),
    /// Fill the buffer with the next received frame.
    ReceiveBuffer(Vec<u8>),
    /// Enable tag emulation.
    Activate,
    /// Disable tag emulation.
    Deactivate,
    /// Configure the emulated tag type.
    Configure(u8),
    /// Set the maximum inter-frame delay.
    SetFrameDelayMax(u32),
}

/// One completion notification owed to a process: deliver the three
/// arguments to the callback handle `callback` registered by `process`.
#[derive(Clone, Copy, PartialEq, Eq, Structural, Debug)]
pub struct Notification {
    /// The process that started the completed operation.
    pub process: u32,
    /// The callback handle that process had registered.
    pub callback: u32,
    /// Result code reported by the hardware.
    pub result: ReturnCode,
    /// Second callback argument: bytes copied into the receive region for a
    /// receive completion, zero for a transmit completion.
    pub arg2: usize,
    /// Third callback argument: always zero.
    pub arg3: usize,
}

} // verus!
