//! Device-manager core for a lightweight virtual machine monitor.
//!
//! The crate models the control-plane data structures that advertise
//! memory-mapped I/O (MMIO) devices to a guest kernel:
//!
//! * an ordered, non-overlapping address [`bus`],
//! * a bounded kernel command-line builder ([`cmdline`]),
//! * the MMIO device manager itself ([`manager`]), which allocates
//!   address windows and interrupt numbers, installs devices on the bus,
//!   and emits the discovery fragments the guest kernel parses at boot.
//!
//! Host-side hypervisor calls (ioeventfd and irqfd registration) are not
//! performed here: the manager computes the exact requests the caller must
//! hand to the hypervisor, as plain `(address, datum)` and `(event, irq)`
//! values, and event descriptors are carried as plain integer handles.
//! Serialisation is likewise the embedder's concern: the types here are
//! plain values, to be placed behind whatever locks the surrounding VMM
//! uses to keep vCPU dispatch and control-plane updates apart.

use vstd::prelude::*;

pub mod bus;
pub mod bytes_util;
pub mod cmdline;
pub mod encode;
pub mod legacy;
pub mod manager;
pub mod memory;
pub mod transport;
pub mod virtio;

verus! {

/// Width of one MMIO device slot in guest physical address space.
pub const MMIO_LEN: u64 = 0x1000;

} // verus!
