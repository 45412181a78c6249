//! The MMIO device manager: allocates one 4 KiB window and one interrupt
//! number per device, installs the device on the bus, records it in the
//! id-keyed registry, and emits the discovery fragment the guest kernel
//! parses. Hypervisor registrations (ioeventfd, irqfd) are not performed
//! here: [`MMIODeviceManager::next_slot`] and [`ioevent_requests`] give
//! the caller the exact requests to hand to the hypervisor before it
//! commits a device with one of the `register_*` functions.

use vstd::prelude::*;
use vstd::string::StringSliceAdditionalSpecFns;

use crate::bus::{Bus, BusEntry, BusError, ranges_overlap};
use crate::bytes_util;
use crate::cmdline::{appended, Cmdline, CmdlineError};
use crate::encode;
use crate::legacy::{RtcDevice, SerialDevice};
use crate::memory::GuestMemory;
use crate::transport::{
    spec_mmio_read, spec_mmio_write, MmioTransport, MMIO_CFG_SPACE_OFF, NOTIFY_REG_OFFSET,
    VIRTIO_MMIO_INT_CONFIG,
};
use crate::virtio::{spec_block_config, spec_config_write, VirtioDevice};
use crate::MMIO_LEN;

verus! {

/// What kind of device occupies a slot.
#[derive(Clone, Copy, Debug, PartialEq, Eq, Structural)]
pub enum DeviceType {
    Virtio,
    Serial,
    RTC,
}

/// Errors of registration and live update. Variants carrying an `i32`
/// hold the raw OS error of the failed hypervisor or descriptor call the
/// caller performed.
#[derive(Clone, Copy, Debug, PartialEq, Eq, Structural)]
pub enum Error {
    /// The bus refused the device's window.
    BusError(BusError),
    /// Building the MMIO transport failed.
    CreateMmioDevice(i32),
    /// The command-line builder refused the discovery fragment.
    Cmdline(CmdlineError),
    /// Creating or cloning an event descriptor failed.
    EventFd(i32),
    /// Every interrupt number in the configured range is taken.
    IrqsExhausted,
    /// The hypervisor refused an ioeventfd registration.
    RegisterIoEvent(i32),
    /// The hypervisor refused an irqfd registration.
    RegisterIrqFd(i32),
    /// No device lives at the given address.
    UpdateFailed,
}

impl Error {
    /// The error as text; variants carrying an OS error code append it
    /// in decimal.
    pub open spec fn describe_spec(&self) -> Seq<char> {
        match self {
            Error::BusError(e) => "failed to perform bus operation: "@ + e.describe_spec(),
            Error::CreateMmioDevice(c) => "failed to create mmio device: os error "@
                + encode::signed_dec_chars(*c as int),
            Error::Cmdline(e) => "unable to add device to kernel command line: "@
                + e.describe_spec(),
            Error::EventFd(c) => "failed to create or clone event descriptor: os error "@
                + encode::signed_dec_chars(*c as int),
            Error::IrqsExhausted => "no more IRQs are available"@,
            Error::RegisterIoEvent(c) => "failed to register IO event: os error "@
                + encode::signed_dec_chars(*c as int),
            Error::RegisterIrqFd(c) => "failed to register irqfd: os error "@
                + encode::signed_dec_chars(*c as int),
            Error::UpdateFailed => "failed to update the mmio device"@,
        }
    }

    /// The error as text.
    pub fn describe(&self) -> (r: String)
        ensures
            r@ == self.describe_spec(),
    {
        match self {
            Error::BusError(e) => {
                let mut s = String::from_str("failed to perform bus operation: ");
                let tail = e.describe();
                s.append(tail.as_str());
                s
            },
            Error::CreateMmioDevice(c) => {
                let mut s = String::from_str("failed to create mmio device: os error ");
                let tail = encode::dec_i32_string(*c);
                s.append(tail.as_str());
                s
            },
            Error::Cmdline(e) => {
                let mut s = String::from_str("unable to add device to kernel command line: ");
                let tail = e.describe();
                s.append(tail.as_str());
                s
            },
            Error::EventFd(c) => {
                let mut s = String::from_str(
                    "failed to create or clone event descriptor: os error ",
                );
                let tail = encode::dec_i32_string(*c);
                s.append(tail.as_str());
                s
            },
            Error::IrqsExhausted => String::from_str("no more IRQs are available"),
            Error::RegisterIoEvent(c) => {
                let mut s = String::from_str("failed to register IO event: os error ");
                let tail = encode::dec_i32_string(*c);
                s.append(tail.as_str());
                s
            },
            Error::RegisterIrqFd(c) => {
                let mut s = String::from_str("failed to register irqfd: os error ");
                let tail = encode::dec_i32_string(*c);
                s.append(tail.as_str());
                s
            },
            Error::UpdateFailed => String::from_str("failed to update the mmio device"),
        }
    }
}

/// What one registered device occupies, immutable after registration.
#[derive(Clone, Debug)]
pub struct MMIODeviceInfo {
    pub addr: u64,
    pub irq: u32,
    pub len: u64,
    pub type_: DeviceType,
}

impl MMIODeviceInfo {
    pub fn addr(&self) -> (r: u64)
        ensures
            r == self.addr,
    {
        self.addr
    }

    pub fn irq(&self) -> (r: u32)
        ensures
            r == self.irq,
    {
        self.irq
    }

    pub fn length(&self) -> (r: u64)
        ensures
            r == self.len,
    {
        self.len
    }

    pub fn type_(&self) -> (r: DeviceType)
        ensures
            r == self.type_,
    {
        self.type_
    }
}

/// A device installed behind a bus window.
pub enum AttachedDevice<D> {
    Virtio(MmioTransport<D>),
    Serial(SerialDevice),
    Rtc(RtcDevice),
}

/// The kind of an attached device.
pub open spec fn attached_type<D>(d: AttachedDevice<D>) -> DeviceType {
    match d {
        AttachedDevice::Virtio(_) => DeviceType::Virtio,
        AttachedDevice::Serial(_) => DeviceType::Serial,
        AttachedDevice::Rtc(_) => DeviceType::RTC,
    }
}

/// `buf` after a read at `offset` from attached device `d`; only virtio
/// config space is readable in this model.
pub open spec fn spec_device_read<D: VirtioDevice>(
    d: AttachedDevice<D>,
    offset: u64,
    buf: Seq<u8>,
) -> Seq<u8> {
    match d {
        AttachedDevice::Virtio(t) => spec_mmio_read(t.device.config_view(), offset, buf),
        AttachedDevice::Serial(_) => buf,
        AttachedDevice::Rtc(_) => buf,
    }
}

/// Relates an attached device before and after a write of `data` at
/// `offset`: virtio forwards into config space, the legacy models drop it.
pub open spec fn device_write_rel<D: VirtioDevice>(
    d0: AttachedDevice<D>,
    d1: AttachedDevice<D>,
    offset: u64,
    data: Seq<u8>,
) -> bool {
    match (d0, d1) {
        (AttachedDevice::Virtio(t0), AttachedDevice::Virtio(t1)) => {
            &&& t1.device.config_view() == spec_mmio_write(t0.device.config_view(), offset, data)
            &&& t1.device.queue_sizes_view() == t0.device.queue_sizes_view()
            &&& t1.mem == t0.mem
            &&& t1.queue_evts == t0.queue_evts
            &&& t1.interrupt_evt == t0.interrupt_evt
            &&& t1.interrupt_status == t0.interrupt_status
        },
        (AttachedDevice::Virtio(t0), _) => false,
        (d0, d1) => d1 == d0,
    }
}

/// Relates an attached device before and after a drive update of
/// `new_size` bytes: the capacity payload lands at config offset 0 and
/// the config-change cause is latched.
pub open spec fn device_drive_update_rel<D: VirtioDevice>(
    d0: AttachedDevice<D>,
    d1: AttachedDevice<D>,
    new_size: u64,
) -> bool {
    match (d0, d1) {
        (AttachedDevice::Virtio(t0), AttachedDevice::Virtio(t1)) => {
            &&& t1.device.config_view() == spec_config_write(
                t0.device.config_view(),
                0,
                spec_block_config(new_size),
            )
            &&& t1.device.queue_sizes_view() == t0.device.queue_sizes_view()
            &&& t1.mem == t0.mem
            &&& t1.queue_evts == t0.queue_evts
            &&& t1.interrupt_evt == t0.interrupt_evt
            &&& t1.interrupt_status == (t0.interrupt_status | VIRTIO_MMIO_INT_CONFIG)
        },
        (AttachedDevice::Virtio(t0), _) => false,
        (d0, d1) => d1 == d0,
    }
}

/// The discovery fragment one virtio device adds to the command line:
/// `virtio_mmio.device=4K@0x<addr, 8 hex digits>:<irq decimal>`.
pub open spec fn virtio_fragment(addr: u64, irq: u32) -> Seq<u8> {
    "virtio_mmio.device=4K@0x".spec_bytes() + encode::hex_padded(addr as nat, 8) + seq![0x3au8]
        + encode::dec_digits(irq as nat)
}

/// The early-console fragment of the MMIO serial device:
/// `earlycon=uart,mmio32,0x<addr, 8 hex digits>`.
pub open spec fn earlycon_fragment(addr: u64) -> Seq<u8> {
    "earlycon=uart,mmio32,0x".spec_bytes() + encode::hex_padded(addr as nat, 8)
}

/// Allocates MMIO windows and interrupt numbers, owns the bus and the
/// id-keyed registry of registered devices.
pub struct MMIODeviceManager<D> {
    pub bus: Bus<AttachedDevice<D>>,
    pub guest_mem: GuestMemory,
    /// First slot base, as configured.
    pub mmio_base: u64,
    /// Base of the next slot to hand out.
    pub next_addr: u64,
    /// First interrupt number of the configured range.
    pub irq_first: u32,
    /// Next interrupt number to hand out.
    pub irq: u32,
    /// Last usable interrupt number, inclusive.
    pub last_irq: u32,
    /// Registered devices under their unique ids, in registration order.
    pub id_to_dev_info: Vec<(String, MMIODeviceInfo)>,
}

impl<D: VirtioDevice> MMIODeviceManager<D> {
    /// How many devices are registered.
    pub open spec fn device_count(&self) -> nat {
        self.id_to_dev_info@.len()
    }

    /// Descriptor of the `i`-th registered device.
    pub open spec fn spec_info(&self, i: int) -> MMIODeviceInfo {
        self.id_to_dev_info@[i].1
    }

    /// Id of the `i`-th registered device.
    pub open spec fn spec_id(&self, i: int) -> Seq<char> {
        self.id_to_dev_info@[i].0@
    }

    /// A device is registered under `id`.
    pub open spec fn has_id(&self, id: Seq<char>) -> bool {
        exists|i: int| 0 <= i < self.device_count() && self.spec_id(i) == id
    }

    /// The manager's invariant. Slots advance by `MMIO_LEN` from
    /// `mmio_base` and interrupt numbers by one from `irq_first`; the
    /// registry and the bus list the same devices in the same order; ids
    /// are unique; the whole configured window fits the address space.
    pub open spec fn wf(&self) -> bool {
        &&& self.bus.wf()
        &&& self.irq_first <= self.irq
        &&& self.irq - self.irq_first == self.device_count()
        &&& (self.irq_first > self.last_irq ==> self.irq == self.irq_first)
        &&& (self.irq_first <= self.last_irq ==> self.irq <= self.last_irq + 1)
        &&& self.last_irq < u32::MAX
        &&& self.next_addr == self.mmio_base + self.device_count() * (MMIO_LEN as int)
        &&& (self.irq_first <= self.last_irq ==> self.mmio_base + (self.last_irq + 1
            - self.irq_first) * (MMIO_LEN as int) <= u64::MAX)
        &&& forall|i: int|
            0 <= i < self.device_count() ==> {
                &&& (#[trigger] self.spec_info(i)).addr == self.mmio_base + i * (MMIO_LEN as int)
                &&& self.spec_info(i).irq == self.irq_first + i
                &&& self.spec_info(i).len == MMIO_LEN
            }
        &&& forall|i: int, j: int|
            0 <= i < j < self.device_count() ==> self.spec_id(i) != self.spec_id(j)
        &&& self.bus.entries@.len() == self.device_count()
        &&& forall|i: int|
            0 <= i < self.device_count() ==> {
                &&& (#[trigger] self.bus.entries@[i]).base == self.mmio_base + i * (
                MMIO_LEN as int)
                &&& self.bus.entries@[i].len == MMIO_LEN
                &&& attached_type(self.bus.entries@[i].device) == self.spec_info(i).type_
            }
    }

    /// A fresh manager over `[mmio_base, ...)` and the inclusive
    /// interrupt range `irq_interval`. The range must leave room for the
    /// one-past-the-end interrupt number, and every slot the range allows
    /// must fit the guest address space.
    #[verifier::rlimit(60)]
    pub fn new(guest_mem: GuestMemory, mmio_base: u64, irq_interval: (u32, u32)) -> (r:
        MMIODeviceManager<D>)
        requires
            irq_interval.1 < u32::MAX,
            irq_interval.0 <= irq_interval.1 ==> mmio_base + (irq_interval.1 + 1 - irq_interval.0)
                * (MMIO_LEN as int) <= u64::MAX,
        ensures
            r.wf(),
            r.guest_mem == guest_mem,
            r.mmio_base == mmio_base,
            r.next_addr == mmio_base,
            r.irq_first == irq_interval.0,
            r.irq == irq_interval.0,
            r.last_irq == irq_interval.1,
            r.device_count() == 0,
            r.bus.entries@.len() == 0,
    {
        MMIODeviceManager {
            bus: Bus::new(),
            guest_mem,
            mmio_base,
            next_addr: mmio_base,
            irq_first: irq_interval.0,
            irq: irq_interval.0,
            last_irq: irq_interval.1,
            id_to_dev_info: Vec::new(),
        }
    }

    /// The slot the next registration will use: its window base and its
    /// interrupt number, or `IrqsExhausted` when the range is spent. The
    /// caller registers its hypervisor requests against this slot before
    /// committing the device.
    pub fn next_slot(&self) -> (r: Result<(u64, u32), Error>)
        requires
            self.wf(),
        ensures
            self.irq > self.last_irq ==> r == Err::<(u64, u32), Error>(Error::IrqsExhausted),
            self.irq <= self.last_irq ==> r == Ok::<(u64, u32), Error>(
                (self.next_addr, self.irq),
            ),
    {
        if self.irq > self.last_irq {
            Err(Error::IrqsExhausted)
        } else {
            Ok((self.next_addr, self.irq))
        }
    }

    /// Installs `device` at the manager's next slot: pushes the bus
    /// entry, records the registry entry, and advances the slot cursor.
    fn attach_device(&mut self, device: AttachedDevice<D>, id: &str, type_: DeviceType) -> (addr:
        u64)
        requires
            old(self).wf(),
            old(self).irq <= old(self).last_irq,
            !old(self).has_id(id@),
            attached_type(device) == type_,
        ensures
            final(self).wf(),
            addr == old(self).next_addr,
            final(self).bus.entries@ == old(self).bus.entries@.push(
                BusEntry { base: addr, len: MMIO_LEN, device },
            ),
            final(self).device_count() == old(self).device_count() + 1,
            forall|i: int|
                0 <= i < old(self).device_count() ==> final(self).id_to_dev_info@[i] == old(
                    self,
                ).id_to_dev_info@[i],
            final(self).spec_id(old(self).device_count() as int) == id@,
            final(self).spec_info(old(self).device_count() as int) == (MMIODeviceInfo {
                addr,
                irq: old(self).irq,
                len: MMIO_LEN,
                type_,
            }),
            final(self).next_addr == old(self).next_addr + MMIO_LEN,
            final(self).irq == old(self).irq + 1,
            final(self).mmio_base == old(self).mmio_base,
            final(self).irq_first == old(self).irq_first,
            final(self).last_irq == old(self).last_irq,
            final(self).guest_mem == old(self).guest_mem,
    {
        let addr = self.next_addr;
        let cur_irq = self.irq;
        let ghost old_self = *self;
        let ghost count = self.device_count() as int;
        proof {
            // the next slot still fits the address space
            assert(count <= old_self.last_irq - old_self.irq_first);
            assert(addr + MMIO_LEN <= u64::MAX);
            // no existing window overlaps the next slot: they all end at
            // or below the cursor
            assert forall|j: int| 0 <= j < count implies !ranges_overlap(
                (#[trigger] old_self.bus.entries@[j]).base,
                old_self.bus.entries@[j].len,
                addr,
                MMIO_LEN,
            ) by {
                assert(old_self.bus.entries@[j].base + old_self.bus.entries@[j].len
                    == old_self.mmio_base + (j + 1) * (MMIO_LEN as int));
                assert((j + 1) * (MMIO_LEN as int) <= count * (MMIO_LEN as int));
            }
            assert(!old_self.bus.overlaps_any(addr, MMIO_LEN));
        }
        proof {
            assert forall|i: int| 0 <= i < count implies (#[trigger] old_self.bus.entries@[i]).base
                < addr by {
                assert(old_self.bus.entries@[i].base == old_self.mmio_base + i * (MMIO_LEN as int));
                assert(i * (MMIO_LEN as int) < count * (MMIO_LEN as int));
            }
        }
        let res = self.bus.insert(device, addr, MMIO_LEN);
        proof {
            assert(res.is_ok());
            assert(self.bus.entries@ == old_self.bus.entries@.push(
                BusEntry { base: addr, len: MMIO_LEN, device },
            ));
        }
        match res {
            Ok(()) => {},
            Err(e) => {
                // no window overlaps the fresh slot, so this arm is dead
                proof {
                    assert(false);
                }
            },
        }
        let owned_id: String = id.to_owned();
        self.id_to_dev_info.push(
            (owned_id, MMIODeviceInfo { addr, irq: cur_irq, len: MMIO_LEN, type_ }),
        );
        self.next_addr = addr + MMIO_LEN;
        self.irq = cur_irq + 1;
        proof {
            let new_count = count + 1;
            assert(self.device_count() == new_count);
            assert forall|i: int| 0 <= i < new_count implies {
                &&& (#[trigger] self.spec_info(i)).addr == self.mmio_base + i * (MMIO_LEN as int)
                &&& self.spec_info(i).irq == self.irq_first + i
                &&& self.spec_info(i).len == MMIO_LEN
            } by {
                if i < count {
                    assert(self.id_to_dev_info@[i] == old_self.id_to_dev_info@[i]);
                    assert(old_self.spec_info(i).addr == old_self.mmio_base + i * (
                    MMIO_LEN as int));
                }
            }
            assert forall|i: int, j: int| 0 <= i < j < new_count implies self.spec_id(i)
                != self.spec_id(j) by {
                if j < count {
                    assert(old_self.spec_id(i) != old_self.spec_id(j));
                } else {
                    assert(self.spec_id(j) == id@);
                    assert(!old_self.has_id(id@));
                    assert(self.spec_id(i) == old_self.spec_id(i));
                }
            }
            assert forall|i: int| 0 <= i < new_count implies {
                &&& (#[trigger] self.bus.entries@[i]).base == self.mmio_base + i * (MMIO_LEN as int)
                &&& self.bus.entries@[i].len == MMIO_LEN
                &&& attached_type(self.bus.entries@[i].device) == self.spec_info(i).type_
            } by {
                if i < count {
                    assert(self.bus.entries@[i] == old_self.bus.entries@[i]);
                    assert(old_self.bus.entries@[i].base == old_self.mmio_base + i * (
                    MMIO_LEN as int));
                    assert(self.spec_info(i) == old_self.spec_info(i));
                }
            }
            assert(self.wf());
        }
        addr
    }

    /// Registers a virtio device: checks interrupt availability, appends
    /// the discovery fragment, installs the MMIO transport on the bus at
    /// the next slot, records the device under `id`, and hands back the
    /// slot base. On any error nothing changes. The caller must already
    /// have bound `queue_evts` and `interrupt_evt` with the hypervisor
    /// against this slot (see [`MMIODeviceManager::next_slot`] and
    /// [`ioevent_requests`]).
    pub fn register_virtio_device(
        &mut self,
        device: D,
        queue_evts: Vec<u64>,
        interrupt_evt: u64,
        cmdline: &mut Cmdline,
        id: &str,
    ) -> (r: Result<u64, Error>)
        requires
            old(self).wf(),
            old(cmdline).wf(),
            !old(self).has_id(id@),
            queue_evts@.len() == device.queue_sizes_view().len(),
        ensures
            final(self).wf(),
            final(cmdline).wf(),
            r.is_err() ==> *final(self) == *old(self) && *final(cmdline) == *old(cmdline),
            r == Err::<u64, Error>(Error::IrqsExhausted) <==> old(self).irq > old(self).last_irq,
            old(self).irq <= old(self).last_irq ==> match old(cmdline).insert_bytes_outcome(
                virtio_fragment(old(self).next_addr, old(self).irq),
            ) {
                Some(e) => r == Err::<u64, Error>(Error::Cmdline(e)),
                None => {
                    &&& r == Ok::<u64, Error>(old(self).next_addr)
                    &&& final(cmdline)@ == appended(
                        old(cmdline)@,
                        virtio_fragment(old(self).next_addr, old(self).irq),
                    )
                    &&& final(cmdline).spec_keys() == old(cmdline).spec_keys()
                    &&& final(cmdline).spec_capacity() == old(cmdline).spec_capacity()
                    &&& final(self).device_count() == old(self).device_count() + 1
                    &&& final(self).next_addr == old(self).next_addr + MMIO_LEN
                    &&& final(self).irq == old(self).irq + 1
                    &&& final(self).spec_id(old(self).device_count() as int) == id@
                    &&& final(self).spec_info(old(self).device_count() as int)
                        == (MMIODeviceInfo {
                        addr: old(self).next_addr,
                        irq: old(self).irq,
                        len: MMIO_LEN,
                        type_: DeviceType::Virtio,
                    })
                    &&& forall|i: int|
                        0 <= i < old(self).device_count() ==> final(self).id_to_dev_info@[i]
                            == old(self).id_to_dev_info@[i]
                    &&& final(self).bus.entries@.len() == old(self).bus.entries@.len() + 1
                    &&& forall|i: int|
                        0 <= i < old(self).bus.entries@.len() ==> final(self).bus.entries@[i]
                            == old(self).bus.entries@[i]
                    &&& final(self).bus.entries@.last().base == old(self).next_addr
                    &&& final(self).bus.entries@.last().len == MMIO_LEN
                    &&& match final(self).bus.entries@.last().device {
                        AttachedDevice::Virtio(t) => {
                            &&& t.device == device
                            &&& t.queue_evts == queue_evts
                            &&& t.interrupt_evt == interrupt_evt
                            &&& t.interrupt_status == 0
                            &&& t.mem.regions@ == old(self).guest_mem.regions@
                        },
                        _ => false,
                    }
                    &&& final(self).mmio_base == old(self).mmio_base
                    &&& final(self).irq_first == old(self).irq_first
                    &&& final(self).last_irq == old(self).last_irq
                    &&& final(self).guest_mem == old(self).guest_mem
                },
            },
    {
        if self.irq > self.last_irq {
            return Err(Error::IrqsExhausted);
        }
        let addr = self.next_addr;
        let cur_irq = self.irq;
        let mut frag = vstd::slice::slice_to_vec("virtio_mmio.device=4K@0x".as_bytes());
        let hex = encode::hex_u64_padded8(addr);
        bytes_util::push_bytes(&mut frag, hex.as_slice());
        frag.push(0x3a);
        let dec = encode::dec_u32(cur_irq);
        bytes_util::push_bytes(&mut frag, dec.as_slice());
        assert(frag@ =~= virtio_fragment(addr, cur_irq));
        match cmdline.insert_bytes(frag.as_slice()) {
            Err(e) => {
                return Err(Error::Cmdline(e));
            },
            Ok(()) => {},
        }
        let mem = self.guest_mem.duplicate();
        let t = MmioTransport::new(mem, device, queue_evts, interrupt_evt);
        let slot = self.attach_device(AttachedDevice::Virtio(t), id, DeviceType::Virtio);
        Ok(slot)
    }

    /// Registers the early-console MMIO serial device under id `uart`,
    /// appending its `earlycon` fragment. Device-tree architectures call
    /// this; the caller binds `interrupt_evt` as an irqfd for this slot's
    /// interrupt number.
    pub fn register_mmio_serial(&mut self, interrupt_evt: u64, cmdline: &mut Cmdline) -> (r: Result<
        (),
        Error,
    >)
        requires
            old(self).wf(),
            old(cmdline).wf(),
            !old(self).has_id("uart"@),
        ensures
            final(self).wf(),
            final(cmdline).wf(),
            r.is_err() ==> *final(self) == *old(self) && *final(cmdline) == *old(cmdline),
            r == Err::<(), Error>(Error::IrqsExhausted) <==> old(self).irq > old(self).last_irq,
            old(self).irq <= old(self).last_irq ==> match old(cmdline).insert_bytes_outcome(
                earlycon_fragment(old(self).next_addr),
            ) {
                Some(e) => r == Err::<(), Error>(Error::Cmdline(e)),
                None => {
                    &&& r == Ok::<(), Error>(())
                    &&& final(cmdline)@ == appended(
                        old(cmdline)@,
                        earlycon_fragment(old(self).next_addr),
                    )
                    &&& final(self).device_count() == old(self).device_count() + 1
                    &&& final(self).spec_id(old(self).device_count() as int) == "uart"@
                    &&& final(self).spec_info(old(self).device_count() as int)
                        == (MMIODeviceInfo {
                        addr: old(self).next_addr,
                        irq: old(self).irq,
                        len: MMIO_LEN,
                        type_: DeviceType::Serial,
                    })
                    &&& final(self).bus.entries@ == old(self).bus.entries@.push(
                        BusEntry {
                            base: old(self).next_addr,
                            len: MMIO_LEN,
                            device: AttachedDevice::Serial(SerialDevice { interrupt_evt }),
                        },
                    )
                    &&& forall|i: int|
                        0 <= i < old(self).device_count() ==> final(self).id_to_dev_info@[i]
                            == old(self).id_to_dev_info@[i]
                    &&& final(self).next_addr == old(self).next_addr + MMIO_LEN
                    &&& final(self).irq == old(self).irq + 1
                },
            },
    {
        if self.irq > self.last_irq {
            return Err(Error::IrqsExhausted);
        }
        let addr = self.next_addr;
        let mut frag = vstd::slice::slice_to_vec("earlycon=uart,mmio32,0x".as_bytes());
        let hex = encode::hex_u64_padded8(addr);
        bytes_util::push_bytes(&mut frag, hex.as_slice());
        assert(frag@ =~= earlycon_fragment(addr));
        match cmdline.insert_bytes(frag.as_slice()) {
            Err(e) => {
                return Err(Error::Cmdline(e));
            },
            Ok(()) => {},
        }
        let device = SerialDevice::new(interrupt_evt);
        let _ = self.attach_device(AttachedDevice::Serial(device), "uart", DeviceType::Serial);
        Ok(())
    }

    /// Registers the MMIO real-time clock under id `rtc`. Discovery is
    /// device-tree only, so no fragment is emitted.
    pub fn register_mmio_rtc(&mut self, interrupt_evt: u64) -> (r: Result<(), Error>)
        requires
            old(self).wf(),
            !old(self).has_id("rtc"@),
        ensures
            final(self).wf(),
            r.is_err() ==> *final(self) == *old(self),
            r == Err::<(), Error>(Error::IrqsExhausted) <==> old(self).irq > old(self).last_irq,
            old(self).irq <= old(self).last_irq ==> {
                &&& r == Ok::<(), Error>(())
                &&& final(self).device_count() == old(self).device_count() + 1
                &&& final(self).spec_id(old(self).device_count() as int) == "rtc"@
                &&& final(self).spec_info(old(self).device_count() as int) == (MMIODeviceInfo {
                    addr: old(self).next_addr,
                    irq: old(self).irq,
                    len: MMIO_LEN,
                    type_: DeviceType::RTC,
                })
                &&& final(self).bus.entries@ == old(self).bus.entries@.push(
                    BusEntry {
                        base: old(self).next_addr,
                        len: MMIO_LEN,
                        device: AttachedDevice::Rtc(RtcDevice { interrupt_evt }),
                    },
                )
                &&& forall|i: int|
                    0 <= i < old(self).device_count() ==> final(self).id_to_dev_info@[i] == old(
                        self,
                    ).id_to_dev_info@[i]
                &&& final(self).next_addr == old(self).next_addr + MMIO_LEN
                &&& final(self).irq == old(self).irq + 1
            },
    {
        if self.irq > self.last_irq {
            return Err(Error::IrqsExhausted);
        }
        let device = RtcDevice::new(interrupt_evt);
        let _ = self.attach_device(AttachedDevice::Rtc(device), "rtc", DeviceType::RTC);
        Ok(())
    }

    /// Rebuilds the config space of the device whose window covers
    /// `addr` with the capacity payload for `new_size` bytes and latches
    /// the config-change interrupt. Fails with `UpdateFailed`, changing
    /// nothing, when no window covers `addr`.
    pub fn update_drive(&mut self, addr: u64, new_size: u64) -> (r: Result<(), Error>)
        requires
            old(self).wf(),
        ensures
            final(self).wf(),
            r.is_ok() <==> exists|i: int| old(self).bus.entry_contains(i, addr),
            r.is_err() ==> r == Err::<(), Error>(Error::UpdateFailed) && *final(self) == *old(
                self,
            ),
            r.is_ok() ==> {
                &&& final(self).bus.entries@.len() == old(self).bus.entries@.len()
                &&& final(self).id_to_dev_info == old(self).id_to_dev_info
                &&& forall|i: int|
                    old(self).bus.entry_contains(i, addr) ==> {
                        &&& (#[trigger] final(self).bus.entries@[i]).base == old(
                            self,
                        ).bus.entries@[i].base
                        &&& final(self).bus.entries@[i].len == old(self).bus.entries@[i].len
                        &&& device_drive_update_rel(
                            old(self).bus.entries@[i].device,
                            final(self).bus.entries@[i].device,
                            new_size,
                        )
                    }
                &&& forall|i: int|
                    0 <= i < old(self).bus.entries@.len() && !old(self).bus.entry_contains(i, addr)
                        ==> final(self).bus.entries@[i] == old(self).bus.entries@[i]
                // the capacity bytes are visible at the start of config
                // space whenever the device's config space can hold them
                &&& forall|i: int|
                    old(self).bus.entry_contains(i, addr) ==> match (
                        old(self).bus.entries@[i].device,
                        final(self).bus.entries@[i].device,
                    ) {
                        (AttachedDevice::Virtio(t0), AttachedDevice::Virtio(t1)) => {
                            t0.device.config_view().len() >= 8 ==> t1.device.config_view(
                            ).subrange(0, 8) == spec_block_config(new_size)
                        },
                        _ => true,
                    }
            },
    {
        let found = self.bus.get(addr);
        match found {
            None => Err(Error::UpdateFailed),
            Some((_offset, idx)) => {
                let ghost old_self = *self;
                let data = crate::virtio::build_config_space(new_size);
                let mut entry = self.bus.entries.remove(idx);
                let d = entry.device;
                match d {
                    AttachedDevice::Virtio(mut t) => {
                        t.write(MMIO_CFG_SPACE_OFF, data.as_slice());
                        t.interrupt(VIRTIO_MMIO_INT_CONFIG);
                        entry.device = AttachedDevice::Virtio(t);
                        proof {
                            assert(attached_type(entry.device) == attached_type(
                                old_self.bus.entries@[idx as int].device,
                            ));
                        }
                    },
                    AttachedDevice::Serial(s) => {
                        entry.device = AttachedDevice::Serial(s);
                        proof {
                            assert(attached_type(entry.device) == attached_type(
                                old_self.bus.entries@[idx as int].device,
                            ));
                        }
                    },
                    AttachedDevice::Rtc(rtc) => {
                        entry.device = AttachedDevice::Rtc(rtc);
                        proof {
                            assert(attached_type(entry.device) == attached_type(
                                old_self.bus.entries@[idx as int].device,
                            ));
                        }
                    },
                }
                self.bus.entries.insert(idx, entry);
                proof {
                    assert(self.bus.entries@ =~= old_self.bus.entries@.update(
                        idx as int,
                        self.bus.entries@[idx as int],
                    ));
                    assert forall|i: int|
                        old_self.bus.entry_contains(i, addr) implies i == idx as int by {
                        crate::bus::lemma_containing_entry_unique(
                            &old_self.bus,
                            addr,
                            i,
                            idx as int,
                        );
                    }
                    let cfg0 = match old_self.bus.entries@[idx as int].device {
                        AttachedDevice::Virtio(t0) => t0.device.config_view(),
                        _ => Seq::empty(),
                    };
                    if old_self.bus.entries@[idx as int].device is Virtio {
                        if cfg0.len() >= 8 {
                            assert(spec_config_write(cfg0, 0, spec_block_config(new_size)).subrange(
                                0,
                                8,
                            ) =~= spec_block_config(new_size));
                        }
                    }
                    assert(self.id_to_dev_info == old_self.id_to_dev_info);
                    assert(self.device_count() == old_self.device_count());
                    assert(self.bus.entries@.len() == old_self.bus.entries@.len());
                    lemma_wf_after_device_swap(&old_self, &*self, idx as int);
                    assert(self.wf());
                }
                Ok(())
            },
        }
    }

    /// Routes a guest read at `addr` through the bus to the covering
    /// device. A read of an unpopulated address is dropped: the buffer
    /// keeps its bytes and `false` comes back.
    pub fn mmio_read(&self, addr: u64, data: &mut Vec<u8>) -> (r: bool)
        requires
            self.wf(),
        ensures
            r == exists|i: int| self.bus.entry_contains(i, addr),
            !r ==> final(data)@ == old(data)@,
            forall|i: int|
                self.bus.entry_contains(i, addr) ==> final(data)@ == spec_device_read(
                    self.bus.entries@[i].device,
                    (addr - self.bus.entries@[i].base) as u64,
                    old(data)@,
                ),
    {
        match self.bus.get(addr) {
            None => false,
            Some((offset, idx)) => {
                match &self.bus.entries[idx].device {
                    AttachedDevice::Virtio(t) => {
                        t.read(offset, data);
                    },
                    AttachedDevice::Serial(_) => {},
                    AttachedDevice::Rtc(_) => {},
                }
                proof {
                    assert forall|i: int|
                        self.bus.entry_contains(i, addr) implies i == idx as int by {
                        crate::bus::lemma_containing_entry_unique(&self.bus, addr, i, idx as int);
                    }
                }
                true
            },
        }
    }

    /// Routes a guest write at `addr` through the bus to the covering
    /// device. A write to an unpopulated address is dropped.
    pub fn mmio_write(&mut self, addr: u64, data: &[u8]) -> (r: bool)
        requires
            old(self).wf(),
        ensures
            final(self).wf(),
            r == exists|i: int| old(self).bus.entry_contains(i, addr),
            !r ==> *final(self) == *old(self),
            r ==> {
                &&& final(self).bus.entries@.len() == old(self).bus.entries@.len()
                &&& final(self).id_to_dev_info == old(self).id_to_dev_info
                &&& forall|i: int|
                    old(self).bus.entry_contains(i, addr) ==> {
                        &&& (#[trigger] final(self).bus.entries@[i]).base == old(
                            self,
                        ).bus.entries@[i].base
                        &&& final(self).bus.entries@[i].len == old(self).bus.entries@[i].len
                        &&& device_write_rel(
                            old(self).bus.entries@[i].device,
                            final(self).bus.entries@[i].device,
                            (addr - old(self).bus.entries@[i].base) as u64,
                            data@,
                        )
                    }
                &&& forall|i: int|
                    0 <= i < old(self).bus.entries@.len() && !old(self).bus.entry_contains(i, addr)
                        ==> final(self).bus.entries@[i] == old(self).bus.entries@[i]
            },
    {
        let found = self.bus.get(addr);
        match found {
            None => false,
            Some((offset, idx)) => {
                let ghost old_self = *self;
                let mut entry = self.bus.entries.remove(idx);
                let d = entry.device;
                match d {
                    AttachedDevice::Virtio(mut t) => {
                        t.write(offset, data);
                        entry.device = AttachedDevice::Virtio(t);
                        proof {
                            assert(attached_type(entry.device) == attached_type(
                                old_self.bus.entries@[idx as int].device,
                            ));
                        }
                    },
                    AttachedDevice::Serial(s) => {
                        entry.device = AttachedDevice::Serial(s);
                        proof {
                            assert(attached_type(entry.device) == attached_type(
                                old_self.bus.entries@[idx as int].device,
                            ));
                        }
                    },
                    AttachedDevice::Rtc(rtc) => {
                        entry.device = AttachedDevice::Rtc(rtc);
                        proof {
                            assert(attached_type(entry.device) == attached_type(
                                old_self.bus.entries@[idx as int].device,
                            ));
                        }
                    },
                }
                self.bus.entries.insert(idx, entry);
                proof {
                    assert(self.bus.entries@ =~= old_self.bus.entries@.update(
                        idx as int,
                        self.bus.entries@[idx as int],
                    ));
                    assert forall|i: int|
                        old_self.bus.entry_contains(i, addr) implies i == idx as int by {
                        crate::bus::lemma_containing_entry_unique(
                            &old_self.bus,
                            addr,
                            i,
                            idx as int,
                        );
                    }
                    assert(self.id_to_dev_info == old_self.id_to_dev_info);
                    assert(self.device_count() == old_self.device_count());
                    assert(self.bus.entries@.len() == old_self.bus.entries@.len());
                    lemma_wf_after_device_swap(&old_self, &*self, idx as int);
                    assert(self.wf());
                }
                true
            },
        }
    }

    /// The address of the device registered under `id`, if any.
    pub fn get_address(&self, id: &str) -> (r: Option<u64>)
        requires
            self.wf(),
        ensures
            match r {
                Some(a) => exists|i: int|
                    0 <= i < self.device_count() && self.spec_id(i) == id@ && (
                    #[trigger] self.spec_info(i)).addr == a,
                None => !self.has_id(id@),
            },
    {
        let target: String = id.to_owned();
        let n = self.id_to_dev_info.len();
        let mut i: usize = 0;
        while i < n
            invariant
                0 <= i <= n == self.device_count(),
                target@ == id@,
                forall|j: int| 0 <= j < i ==> self.spec_id(j) != id@,
            decreases n - i,
        {
            if self.id_to_dev_info[i].0 == target {
                let a = self.id_to_dev_info[i].1.addr;
                proof {
                    assert(0 <= (i as int) < self.device_count());
                    assert(self.spec_id(i as int) == id@);
                    assert(self.spec_info(i as int).addr == a);
                }
                return Some(a);
            }
            i += 1;
        }
        None
    }

    /// The registry of all registered devices, in registration order.
    pub fn get_device_info(&self) -> (r: &Vec<(String, MMIODeviceInfo)>)
        ensures
            r == &self.id_to_dev_info,
    {
        &self.id_to_dev_info
    }
}

/// The ioeventfd registrations a virtio slot needs: one per queue event,
/// each firing on a guest write of the queue index to the slot's
/// queue-notify register.
pub fn ioevent_requests(slot_base: u64, queue_evts: &Vec<u64>) -> (r: Vec<(u64, u64, u32)>)
    requires
        slot_base + NOTIFY_REG_OFFSET <= u64::MAX,
        queue_evts@.len() <= u32::MAX,
    ensures
        r@.len() == queue_evts@.len(),
        forall|i: int|
            0 <= i < r@.len() ==> #[trigger] r@[i] == (
                queue_evts@[i],
                (slot_base + NOTIFY_REG_OFFSET) as u64,
                i as u32,
            ),
{
    let mut out: Vec<(u64, u64, u32)> = Vec::new();
    let notify_addr = slot_base + NOTIFY_REG_OFFSET as u64;
    let mut i: usize = 0;
    while i < queue_evts.len()
        invariant
            0 <= i <= queue_evts@.len() <= u32::MAX,
            notify_addr == slot_base + NOTIFY_REG_OFFSET,
            out@.len() == i,
            forall|j: int|
                0 <= j < i ==> #[trigger] out@[j] == (queue_evts@[j], notify_addr, j as u32),
        decreases queue_evts@.len() - i,
    {
        out.push((queue_evts[i], notify_addr, i as u32));
        i += 1;
    }
    out
}

/// A virtio discovery fragment never holds a NUL or newline byte, so the
/// command-line builder refuses it only for want of capacity: given an
/// interrupt number in range, registration succeeds exactly when the
/// fragment fits the remaining room.
pub proof fn lemma_virtio_fragment_clean(addr: u64, irq: u32)
    ensures
        !crate::cmdline::fragment_forbidden(virtio_fragment(addr, irq)),
{
    broadcast use vstd::string::is_ascii_spec_bytes;

    reveal_strlit("virtio_mmio.device=4K@0x");
    let s = "virtio_mmio.device=4K@0x";
    assert(vstd::string::is_ascii(s));
    let p = s.spec_bytes();
    let h = encode::hex_padded(addr as nat, 8);
    let d = encode::dec_digits(irq as nat);
    let f = virtio_fragment(addr, irq);
    encode::lemma_hex_digits_printable(addr as nat);
    encode::lemma_dec_digits_printable(irq as nat);
    assert forall|i: int| 0 <= i < f.len() implies f[i] != 0x00 && f[i] != 0x0a by {
        if i < p.len() {
            assert(f[i] == p[i]);
            assert(p[i] == s@[i] as u8);
        } else if i < p.len() + h.len() {
            assert(f[i] == h[i - p.len()]);
            lemma_hex_padded_printable(addr as nat, 8, i - p.len());
        } else if i == p.len() + h.len() {
            assert(f[i] == 0x3a);
        } else {
            assert(f[i] == d[i - p.len() - h.len() - 1]);
        }
    }
}

/// An early-console fragment never holds a NUL or newline byte either.
pub proof fn lemma_earlycon_fragment_clean(addr: u64)
    ensures
        !crate::cmdline::fragment_forbidden(earlycon_fragment(addr)),
{
    broadcast use vstd::string::is_ascii_spec_bytes;

    reveal_strlit("earlycon=uart,mmio32,0x");
    let s = "earlycon=uart,mmio32,0x";
    assert(vstd::string::is_ascii(s));
    let p = s.spec_bytes();
    let h = encode::hex_padded(addr as nat, 8);
    let f = earlycon_fragment(addr);
    encode::lemma_hex_digits_printable(addr as nat);
    assert forall|i: int| 0 <= i < f.len() implies f[i] != 0x00 && f[i] != 0x0a by {
        if i < p.len() {
            assert(f[i] == p[i]);
            assert(p[i] == s@[i] as u8);
        } else {
            assert(f[i] == h[i - p.len()]);
            lemma_hex_padded_printable(addr as nat, 8, i - p.len());
        }
    }
}

/// Every byte of a zero-padded hexadecimal string is a digit or letter.
proof fn lemma_hex_padded_printable(v: nat, w: nat, k: int)
    requires
        0 <= k < encode::hex_padded(v, w).len(),
    ensures
        0x30 <= encode::hex_padded(v, w)[k] <= 0x66,
{
    encode::lemma_hex_digits_printable(v);
    let d = encode::hex_digits(v);
    if d.len() >= w {
        assert(encode::hex_padded(v, w)[k] == d[k]);
    } else {
        if k >= w - d.len() {
            assert(encode::hex_padded(v, w)[k] == d[k - (w - d.len())]);
        } else {
            assert(encode::hex_padded(v, w)[k] == 0x30);
        }
    }
}

/// Replacing the device behind one bus window with one of the same
/// kind, leaving the window and all other state alone, preserves the
/// manager's invariant.
proof fn lemma_wf_after_device_swap<D: VirtioDevice>(
    m0: &MMIODeviceManager<D>,
    m1: &MMIODeviceManager<D>,
    idx: int,
)
    requires
        m0.wf(),
        0 <= idx < m0.bus.entries@.len(),
        m1.id_to_dev_info == m0.id_to_dev_info,
        m1.mmio_base == m0.mmio_base,
        m1.next_addr == m0.next_addr,
        m1.irq_first == m0.irq_first,
        m1.irq == m0.irq,
        m1.last_irq == m0.last_irq,
        m1.bus.entries@.len() == m0.bus.entries@.len(),
        forall|i: int|
            0 <= i < m0.bus.entries@.len() && i != idx ==> m1.bus.entries@[i]
                == m0.bus.entries@[i],
        m1.bus.entries@[idx].base == m0.bus.entries@[idx].base,
        m1.bus.entries@[idx].len == m0.bus.entries@[idx].len,
        attached_type(m1.bus.entries@[idx].device) == attached_type(m0.bus.entries@[idx].device),
    ensures
        m1.wf(),
{
    assert(m1.device_count() == m0.device_count());
    assert forall|i: int| 0 <= i < m1.device_count() implies {
        &&& (#[trigger] m1.spec_info(i)).addr == m1.mmio_base + i * (MMIO_LEN as int)
        &&& m1.spec_info(i).irq == m1.irq_first + i
        &&& m1.spec_info(i).len == MMIO_LEN
    } by {
        assert(m1.spec_info(i) == m0.spec_info(i));
        assert(m0.spec_info(i).addr == m0.mmio_base + i * (MMIO_LEN as int));
    }
    assert forall|i: int, j: int| 0 <= i < j < m1.device_count() implies m1.spec_id(i)
        != m1.spec_id(j) by {
        assert(m1.spec_id(i) == m0.spec_id(i));
        assert(m1.spec_id(j) == m0.spec_id(j));
        assert(m0.spec_id(i) != m0.spec_id(j));
    }
    assert forall|i: int| 0 <= i < m1.device_count() implies {
        &&& (#[trigger] m1.bus.entries@[i]).base == m1.mmio_base + i * (MMIO_LEN as int)
        &&& m1.bus.entries@[i].len == MMIO_LEN
        &&& attached_type(m1.bus.entries@[i].device) == m1.spec_info(i).type_
    } by {
        if i != idx {
            assert(m1.bus.entries@[i] == m0.bus.entries@[i]);
        }
        assert(m0.bus.entries@[i].base == m0.mmio_base + i * (MMIO_LEN as int));
        assert(attached_type(m0.bus.entries@[i].device) == m0.spec_info(i).type_);
        assert(m1.spec_info(i) == m0.spec_info(i));
    }
    assert(m1.bus.wf()) by {
        assert forall|i: int|
            0 <= i < m1.bus.entries@.len() implies (#[trigger] m1.bus.entries@[i]).len > 0
            && m1.bus.entries@[i].base + m1.bus.entries@[i].len <= u64::MAX by {
            if i != idx {
                assert(m1.bus.entries@[i] == m0.bus.entries@[i]);
            }
            assert(m0.bus.entries@[i].len > 0 && m0.bus.entries@[i].base + m0.bus.entries@[i].len
                <= u64::MAX);
        }
        assert forall|i: int|
            0 <= i < m1.bus.entries@.len() - 1 implies (#[trigger] m1.bus.entries@[i]).base
            + m1.bus.entries@[i].len <= m1.bus.entries@[i + 1].base by {
            assert(m0.bus.entries@[i].base + m0.bus.entries@[i].len <= m0.bus.entries@[i
                + 1].base);
            if i != idx {
                assert(m1.bus.entries@[i] == m0.bus.entries@[i]);
            }
            if i + 1 != idx {
                assert(m1.bus.entries@[i + 1] == m0.bus.entries@[i + 1]);
            }
        }
    }
}

/// Every slot the manager hands out lies `MMIO_LEN` apart from
/// `mmio_base`, spans exactly `MMIO_LEN` bytes, stays aligned to the
/// configured base, and carries the interrupt number `irq_first`
/// positions into the range.
pub proof fn lemma_slot_geometry<D: VirtioDevice>(m: &MMIODeviceManager<D>)
    requires
        m.wf(),
    ensures
        forall|i: int|
            0 <= i < m.device_count() ==> {
                &&& (#[trigger] m.spec_info(i)).addr == m.mmio_base + i * (MMIO_LEN as int)
                &&& m.spec_info(i).len == MMIO_LEN
                &&& m.spec_info(i).irq == m.irq_first + i
                &&& m.spec_info(i).addr as int % (MMIO_LEN as int) == m.mmio_base as int % (MMIO_LEN as int)
            },
{
    assert forall|i: int| 0 <= i < m.device_count() implies {
        &&& (#[trigger] m.spec_info(i)).addr == m.mmio_base + i * (MMIO_LEN as int)
        &&& m.spec_info(i).len == MMIO_LEN
        &&& m.spec_info(i).irq == m.irq_first + i
        &&& m.spec_info(i).addr as int % (MMIO_LEN as int) == m.mmio_base as int % (MMIO_LEN as int)
    } by {
        vstd::arithmetic::div_mod::lemma_mod_multiples_vanish(
            i,
            m.mmio_base as int,
            MMIO_LEN as int,
        );
    }
}

/// Interrupt numbers of distinct devices are distinct and lie within the
/// configured inclusive range.
pub proof fn lemma_irqs_distinct_in_range<D: VirtioDevice>(m: &MMIODeviceManager<D>)
    requires
        m.wf(),
    ensures
        forall|i: int, j: int|
            0 <= i < m.device_count() && 0 <= j < m.device_count() && i != j ==> (
            #[trigger] m.spec_info(i)).irq != (#[trigger] m.spec_info(j)).irq,
        forall|i: int|
            0 <= i < m.device_count() ==> m.irq_first <= (#[trigger] m.spec_info(i)).irq
                <= m.last_irq,
{
}

/// The registry and the bus agree: the `i`-th registered device's window
/// on the bus starts at its recorded address with its recorded length,
/// and holds a device of its recorded kind.
pub proof fn lemma_registry_matches_bus<D: VirtioDevice>(m: &MMIODeviceManager<D>)
    requires
        m.wf(),
    ensures
        m.bus.entries@.len() == m.device_count(),
        forall|i: int|
            0 <= i < m.device_count() ==> {
                &&& (#[trigger] m.bus.entries@[i]).base == m.spec_info(i).addr
                &&& m.bus.entries@[i].len == m.spec_info(i).len
                &&& attached_type(m.bus.entries@[i].device) == m.spec_info(i).type_
            },
{
}

/// Two distinct discovery fragments never collide: equal fragments come
/// from the same slot and the same interrupt number, so the command line
/// holds exactly one fragment per registered virtio device.
pub proof fn lemma_virtio_fragment_injective(a1: u64, i1: u32, a2: u64, i2: u32)
    requires
        virtio_fragment(a1, i1) == virtio_fragment(a2, i2),
    ensures
        a1 == a2,
        i1 == i2,
{
    let p = "virtio_mmio.device=4K@0x".spec_bytes();
    let h1 = encode::hex_padded(a1 as nat, 8);
    let h2 = encode::hex_padded(a2 as nat, 8);
    let d1 = encode::dec_digits(i1 as nat);
    let d2 = encode::dec_digits(i2 as nat);
    let f1 = virtio_fragment(a1, i1);
    let f2 = virtio_fragment(a2, i2);
    lemma_hex_padded_no_colon(a1 as nat, 8);
    lemma_hex_padded_no_colon(a2 as nat, 8);
    encode::lemma_dec_digits_printable(i1 as nat);
    encode::lemma_dec_digits_printable(i2 as nat);
    if h1.len() == h2.len() {
        assert(h1 =~= f1.subrange(p.len() as int, (p.len() + h1.len()) as int)) by {
            assert forall|k: int| 0 <= k < h1.len() implies f1[(p.len() + k) as int] == h1[k] by {}
        }
        assert(h2 =~= f2.subrange(p.len() as int, (p.len() + h1.len()) as int)) by {
            assert forall|k: int| 0 <= k < h2.len() implies f2[(p.len() + k) as int] == h2[k] by {}
        }
        encode::lemma_hex_padded_injective(a1 as nat, a2 as nat, 8);
        assert(d1 =~= f1.subrange((p.len() + h1.len() + 1) as int, f1.len() as int));
        assert(d2 =~= f2.subrange((p.len() + h2.len() + 1) as int, f2.len() as int));
        encode::lemma_dec_digits_injective(i1 as nat, i2 as nat);
    } else if h1.len() < h2.len() {
        // the colon of the first fragment would sit inside the second
        // fragment's hexadecimal run, but hex digits are never a colon
        assert(f1[(p.len() + h1.len()) as int] == 0x3a);
        assert(f2[(p.len() + h1.len()) as int] == h2[h1.len() as int]);
        assert(false);
    } else {
        assert(f2[(p.len() + h2.len()) as int] == 0x3a);
        assert(f1[(p.len() + h2.len()) as int] == h1[h2.len() as int]);
        assert(false);
    }
}

/// No byte of a zero-padded hexadecimal string is the colon byte.
proof fn lemma_hex_padded_no_colon(v: nat, w: nat)
    ensures
        forall|k: int|
            0 <= k < encode::hex_padded(v, w).len() ==> encode::hex_padded(v, w)[k] != 0x3a,
{
    encode::lemma_hex_digits_printable(v);
    let d = encode::hex_digits(v);
    assert forall|k: int|
        0 <= k < encode::hex_padded(v, w).len() implies encode::hex_padded(v, w)[k] != 0x3a by {
        if d.len() >= w {
            assert(encode::hex_padded(v, w)[k] == d[k]);
            lemma_hex_digit_not_colon(v, k);
        } else {
            if k >= w - d.len() {
                assert(encode::hex_padded(v, w)[k] == d[k - (w - d.len())]);
                lemma_hex_digit_not_colon(v, k - (w - d.len()));
            }
        }
    }
}

/// Hexadecimal digit bytes skip the colon: digits stop at `0x39` and
/// letters start at `0x61`.
proof fn lemma_hex_digit_not_colon(v: nat, k: int)
    requires
        0 <= k < encode::hex_digits(v).len(),
    ensures
        encode::hex_digits(v)[k] != 0x3a,
    decreases v,
{
    if v < 16 {
        assert(encode::hex_digits(v)[0] == encode::hex_digit(v));
    } else {
        if k < encode::hex_digits(v / 16).len() {
            lemma_hex_digit_not_colon(v / 16, k);
            assert(encode::hex_digits(v)[k] == encode::hex_digits(v / 16)[k]);
        } else {
            assert(encode::hex_digits(v)[k] == encode::hex_digit(v % 16));
        }
    }
}

} // verus!
