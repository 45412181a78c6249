//! Legacy MMIO devices registered on device-tree architectures. Register
//! emulation and the host-side output sink live outside this model; the
//! manager only tracks each device's interrupt event descriptor handle.

use vstd::prelude::*;

verus! {

/// An 8250-style UART behind an MMIO window.
#[derive(Clone, Copy, Debug)]
pub struct SerialDevice {
    /// Event descriptor handle fired for the line interrupt.
    pub interrupt_evt: u64,
}

impl SerialDevice {
    pub fn new(interrupt_evt: u64) -> (r: SerialDevice)
        ensures
            r.interrupt_evt == interrupt_evt,
    {
        SerialDevice { interrupt_evt }
    }
}

/// A real-time clock behind an MMIO window.
#[derive(Clone, Copy, Debug)]
pub struct RtcDevice {
    /// Event descriptor handle fired for the device interrupt.
    pub interrupt_evt: u64,
}

impl RtcDevice {
    pub fn new(interrupt_evt: u64) -> (r: RtcDevice)
        ensures
            r.interrupt_evt == interrupt_evt,
    {
        RtcDevice { interrupt_evt }
    }
}

} // verus!
