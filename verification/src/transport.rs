//! The virtio MMIO transport: wraps a virtio device behind one 4 KiB bus
//! window, owning the device's queue event descriptors (as plain handles)
//! and its interrupt event, and routing config-space accesses at offsets
//! `[0x100, 0x1000)` to the device. Header register emulation below
//! `0x100` belongs to the device implementations and is not modelled:
//! header reads leave the buffer as it is, header writes are dropped.

use vstd::prelude::*;

use crate::memory::GuestMemory;
use crate::virtio::{spec_config_read, spec_config_write, VirtioDevice};

verus! {

/// Offset of the queue-notify register inside the slot header: a guest
/// write of queue index `i` there must fire queue event descriptor `i`.
pub const NOTIFY_REG_OFFSET: u32 = 0x50;

/// First config-space offset within an MMIO slot.
pub const MMIO_CFG_SPACE_OFF: u64 = 0x100;

/// Interrupt-status bit telling the guest to re-read config space.
pub const VIRTIO_MMIO_INT_CONFIG: u32 = 0x2;

/// A virtio device bound to guest memory and one MMIO window.
pub struct MmioTransport<D> {
    pub device: D,
    pub mem: GuestMemory,
    /// One event descriptor handle per virtqueue, in queue order.
    pub queue_evts: Vec<u64>,
    /// The single interrupt event descriptor handle.
    pub interrupt_evt: u64,
    /// Cause bits latched since the guest last acknowledged them.
    pub interrupt_status: u32,
}

/// `buf` after an MMIO read at `offset` from a slot whose device config
/// is `cfg`: config bytes for offsets past `MMIO_CFG_SPACE_OFF`, the
/// unmodelled header leaves the buffer untouched.
pub open spec fn spec_mmio_read(cfg: Seq<u8>, offset: u64, buf: Seq<u8>) -> Seq<u8> {
    if offset >= MMIO_CFG_SPACE_OFF {
        spec_config_read(cfg, (offset - MMIO_CFG_SPACE_OFF) as u64, buf)
    } else {
        buf
    }
}

/// Device config after an MMIO write at `offset`: forwarded into config
/// space past `MMIO_CFG_SPACE_OFF`, dropped in the unmodelled header.
pub open spec fn spec_mmio_write(cfg: Seq<u8>, offset: u64, data: Seq<u8>) -> Seq<u8> {
    if offset >= MMIO_CFG_SPACE_OFF {
        spec_config_write(cfg, (offset - MMIO_CFG_SPACE_OFF) as u64, data)
    } else {
        cfg
    }
}

impl<D: VirtioDevice> MmioTransport<D> {
    /// Wraps `device`, which must come with one queue event handle per
    /// virtqueue and its interrupt event handle.
    pub fn new(mem: GuestMemory, device: D, queue_evts: Vec<u64>, interrupt_evt: u64) -> (r:
        MmioTransport<D>)
        requires
            queue_evts@.len() == device.queue_sizes_view().len(),
        ensures
            r.device == device,
            r.mem == mem,
            r.queue_evts == queue_evts,
            r.interrupt_evt == interrupt_evt,
            r.interrupt_status == 0,
    {
        MmioTransport { device, mem, queue_evts, interrupt_evt, interrupt_status: 0 }
    }

    /// Handles a guest read at `offset` within the slot.
    pub fn read(&self, offset: u64, data: &mut Vec<u8>)
        ensures
            final(data)@ == spec_mmio_read(self.device.config_view(), offset, old(data)@),
    {
        if offset >= MMIO_CFG_SPACE_OFF {
            self.device.read_config(offset - MMIO_CFG_SPACE_OFF, data);
        }
    }

    /// Handles a guest or host write at `offset` within the slot.
    pub fn write(&mut self, offset: u64, data: &[u8])
        ensures
            final(self).device.config_view() == spec_mmio_write(
                old(self).device.config_view(),
                offset,
                data@,
            ),
            final(self).device.queue_sizes_view() == old(self).device.queue_sizes_view(),
            final(self).mem == old(self).mem,
            final(self).queue_evts == old(self).queue_evts,
            final(self).interrupt_evt == old(self).interrupt_evt,
            final(self).interrupt_status == old(self).interrupt_status,
    {
        if offset >= MMIO_CFG_SPACE_OFF {
            self.device.write_config(offset - MMIO_CFG_SPACE_OFF, data);
        }
    }

    /// Latches interrupt cause bits; the caller fires the interrupt event
    /// descriptor to inject the interrupt.
    pub fn interrupt(&mut self, cause: u32)
        ensures
            final(self).interrupt_status == (old(self).interrupt_status | cause),
            final(self).device == old(self).device,
            final(self).mem == old(self).mem,
            final(self).queue_evts == old(self).queue_evts,
            final(self).interrupt_evt == old(self).interrupt_evt,
    {
        self.interrupt_status = self.interrupt_status | cause;
    }
}

} // verus!
