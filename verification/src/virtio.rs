//! The capability surface a virtio device offers the MMIO transport, and
//! two concrete devices: a block device exposing its capacity through
//! config space, and a trivial placeholder device.

use vstd::prelude::*;

use crate::memory::GuestMemory;

verus! {

/// Virtio device type number of a block device.
pub const TYPE_BLOCK: u32 = 2;

/// Bytes per disk sector: capacity in config space counts sectors.
pub const SECTOR_SIZE: u64 = 512;

/// Why a device refused to activate.
#[derive(Clone, Copy, Debug, PartialEq, Eq, Structural)]
pub enum ActivateError {
    BadActivate,
}

pub type ActivateResult = Result<(), ActivateError>;

/// One virtqueue, reduced to the bound the device advertises for it.
#[derive(Clone, Copy, Debug, PartialEq, Eq, Structural)]
pub struct Queue {
    pub max_size: u16,
}

impl Queue {
    pub fn new(max_size: u16) -> (r: Queue)
        ensures
            r.max_size == max_size,
    {
        Queue { max_size }
    }
}

/// `cfg` after a guest- or host-side write of `data` at `offset` into a
/// device's config space: the write lands only when it fits entirely,
/// otherwise the config space is untouched.
pub open spec fn spec_config_write(cfg: Seq<u8>, offset: u64, data: Seq<u8>) -> Seq<u8> {
    if offset + data.len() <= cfg.len() {
        cfg.subrange(0, offset as int) + data + cfg.subrange(
            offset + data.len(),
            cfg.len() as int,
        )
    } else {
        cfg
    }
}

/// `buf` after a read of device config space at `offset`: the prefix that
/// lies within `cfg` is copied, the rest of the buffer keeps its bytes.
pub open spec fn spec_config_read(cfg: Seq<u8>, offset: u64, buf: Seq<u8>) -> Seq<u8> {
    Seq::new(
        buf.len(),
        |i: int|
            if offset + i < cfg.len() {
                cfg[offset + i]
            } else {
                buf[i]
            },
    )
}

/// What the MMIO transport and the device manager need from a virtio
/// device: its queue bounds, its config space, and activation.
pub trait VirtioDevice: Sized {
    /// Advertised maximum size of each virtqueue.
    spec fn queue_sizes_view(&self) -> Seq<u16>;

    /// Current device-specific config space bytes.
    spec fn config_view(&self) -> Seq<u8>;

    /// The virtio device type number.
    fn device_type(&self) -> u32;

    /// The maximum sizes of this device's virtqueues; their number is the
    /// number of queue event descriptors the transport binds.
    fn queue_max_sizes(&self) -> (r: Vec<u16>)
        ensures
            r@ == self.queue_sizes_view(),
    ;

    /// The driver acknowledges feature bits; no observable obligation here.
    fn ack_features(&mut self, page: u32, value: u32);

    /// Copies config space bytes at `offset` into `data`.
    fn read_config(&self, offset: u64, data: &mut Vec<u8>)
        ensures
            final(data)@ == spec_config_read(self.config_view(), offset, old(data)@),
    ;

    /// Writes `data` into config space at `offset` when it fits.
    fn write_config(&mut self, offset: u64, data: &[u8])
        ensures
            final(self).config_view() == spec_config_write(
                old(self).config_view(),
                offset,
                data@,
            ),
            final(self).queue_sizes_view() == old(self).queue_sizes_view(),
    ;

    /// Hands the device its memory, interrupt source and queue events.
    fn activate(
        &mut self,
        mem: GuestMemory,
        interrupt_evt: u64,
        queues: Vec<Queue>,
        queue_evts: Vec<u64>,
    ) -> ActivateResult;
}

/// The capacity bytes a block device holds at config space offset 0:
/// the size in sectors, little endian.
pub open spec fn spec_block_config(disk_size: u64) -> Seq<u8> {
    vstd::bytes::spec_u64_to_le_bytes((disk_size / SECTOR_SIZE) as u64)
}

/// Builds the config space payload advertising a block device capacity of
/// `disk_size` bytes (rounded down to whole sectors).
pub fn build_config_space(disk_size: u64) -> (r: Vec<u8>)
    ensures
        r@ == spec_block_config(disk_size),
        r@.len() == 8,
{
    proof {
        vstd::bytes::lemma_auto_spec_u64_to_from_le_bytes();
    }
    vstd::bytes::u64_to_le_bytes(disk_size / SECTOR_SIZE)
}

/// A virtio block device, modelled down to what the manager observes:
/// one queue and the capacity bytes in config space.
#[derive(Clone, Debug)]
pub struct Block {
    pub config_space: Vec<u8>,
}

impl Block {
    /// A block device backed by `disk_size` bytes.
    pub fn new(disk_size: u64) -> (r: Block)
        ensures
            r.config_view() == spec_block_config(disk_size),
            r.config_view().len() == 8,
    {
        Block { config_space: build_config_space(disk_size) }
    }
}

impl VirtioDevice for Block {
    open spec fn queue_sizes_view(&self) -> Seq<u16> {
        seq![256u16]
    }

    open spec fn config_view(&self) -> Seq<u8> {
        self.config_space@
    }

    fn device_type(&self) -> u32 {
        TYPE_BLOCK
    }

    fn queue_max_sizes(&self) -> (r: Vec<u16>) {
        let mut v: Vec<u16> = Vec::new();
        v.push(256);
        assert(v@ =~= seq![256u16]);
        v
    }

    fn ack_features(&mut self, page: u32, value: u32) {
    }

    fn read_config(&self, offset: u64, data: &mut Vec<u8>) {
        config_read_copy(&self.config_space, offset, data);
    }

    fn write_config(&mut self, offset: u64, data: &[u8]) {
        config_write_copy(&mut self.config_space, offset, data);
    }

    fn activate(
        &mut self,
        mem: GuestMemory,
        interrupt_evt: u64,
        queues: Vec<Queue>,
        queue_evts: Vec<u64>,
    ) -> ActivateResult {
        Ok(())
    }
}

/// A placeholder virtio device: one queue, empty config space, every
/// operation a no-op. Useful for exercising the transport and manager.
#[derive(Clone, Copy, Debug)]
pub struct DummyDevice {
    pub dummy: u32,
}

impl VirtioDevice for DummyDevice {
    open spec fn queue_sizes_view(&self) -> Seq<u16> {
        seq![64u16]
    }

    open spec fn config_view(&self) -> Seq<u8> {
        Seq::empty()
    }

    fn device_type(&self) -> u32 {
        0
    }

    fn queue_max_sizes(&self) -> (r: Vec<u16>) {
        let mut v: Vec<u16> = Vec::new();
        v.push(64);
        assert(v@ =~= seq![64u16]);
        v
    }

    fn ack_features(&mut self, page: u32, value: u32) {
    }

    fn read_config(&self, offset: u64, data: &mut Vec<u8>) {
        proof {
            assert(spec_config_read(self.config_view(), offset, data@) =~= data@);
        }
    }

    fn write_config(&mut self, offset: u64, data: &[u8]) {
        proof {
            if offset + data@.len() <= 0 {
                assert(spec_config_write(self.config_view(), offset, data@)
                    =~= Seq::<u8>::empty());
            }
        }
    }

    fn activate(
        &mut self,
        mem: GuestMemory,
        interrupt_evt: u64,
        queues: Vec<Queue>,
        queue_evts: Vec<u64>,
    ) -> ActivateResult {
        Ok(())
    }
}

/// Copies the in-range part of config space at `offset` into `data`.
fn config_read_copy(cfg: &Vec<u8>, offset: u64, data: &mut Vec<u8>)
    ensures
        final(data)@ == spec_config_read(cfg@, offset, old(data)@),
{
    let n = data.len();
    let mut i: usize = 0;
    while i < n
        invariant
            0 <= i <= n == data@.len(),
            data@.len() == old(data)@.len(),
            forall|j: int|
                0 <= j < i ==> data@[j] == spec_config_read(cfg@, offset, old(data)@)[j],
            forall|j: int| i <= j < n ==> data@[j] == old(data)@[j],
        decreases n - i,
    {
        if offset < cfg.len() as u64 && (i as u64) < cfg.len() as u64 - offset {
            let b = cfg[(offset as usize) + i];
            data[i] = b;
        }
        i += 1;
    }
    assert(data@ =~= spec_config_read(cfg@, offset, old(data)@));
}

/// Writes `data` at `offset` into config space when it fits entirely.
fn config_write_copy(cfg: &mut Vec<u8>, offset: u64, data: &[u8])
    ensures
        final(cfg)@ == spec_config_write(old(cfg)@, offset, data@),
{
    if offset > cfg.len() as u64 {
        assert(cfg@ =~= spec_config_write(cfg@, offset, data@));
        return;
    }
    let off = offset as usize;
    if data.len() > cfg.len() - off {
        assert(cfg@ =~= spec_config_write(cfg@, offset, data@));
        return;
    }
    let mut i: usize = 0;
    while i < data.len()
        invariant
            0 <= i <= data@.len(),
            off + data@.len() <= cfg@.len(),
            off == offset,
            cfg@.len() == old(cfg)@.len(),
            forall|j: int| 0 <= j < i ==> cfg@[off + j] == data@[j],
            forall|j: int| 0 <= j < cfg@.len() && !(off <= j < off + i) ==> cfg@[j] == old(cfg)@[j],
        decreases data@.len() - i,
    {
        let b = data[i];
        let cl = cfg.len();
        assert(off + i < cl);
        cfg[off + i] = b;
        i += 1;
    }
    assert(cfg@ =~= spec_config_write(old(cfg)@, offset, data@));
}

} // verus!
