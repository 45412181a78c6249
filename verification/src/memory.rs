//! Guest physical memory layout: the manager only needs to know which
//! address ranges back the guest, so memory is modelled as its region list.

use vstd::prelude::*;

verus! {

/// A guest physical address.
#[derive(Clone, Copy, Debug, PartialEq, Eq, Structural)]
pub struct GuestAddress(pub u64);

/// Why a memory layout was refused.
#[derive(Clone, Copy, Debug, PartialEq, Eq, Structural)]
pub enum GuestMemoryError {
    /// No region was given.
    NoMemoryRegions,
    /// Regions are unordered, intersect, or run past the address space.
    MemoryRegionOverlap,
}

/// An ordered, disjoint set of guest physical memory regions, each a
/// `(start, size)` pair.
#[derive(Clone, Debug)]
pub struct GuestMemory {
    pub regions: Vec<(GuestAddress, usize)>,
}

/// At least one region; regions ascending, disjoint, and bounded.
pub open spec fn regions_wf(rs: Seq<(GuestAddress, usize)>) -> bool {
    &&& rs.len() > 0
    &&& forall|i: int| 0 <= i < rs.len() ==> (#[trigger] rs[i]).0.0 + rs[i].1 <= u64::MAX
    &&& forall|i: int|
        0 <= i < rs.len() - 1 ==> (#[trigger] rs[i]).0.0 + rs[i].1 <= rs[i + 1].0.0
}

impl GuestMemory {
    pub open spec fn wf(&self) -> bool {
        regions_wf(self.regions@)
    }

    /// Validates and records a guest memory layout. The empty layout is
    /// refused with `NoMemoryRegions`; an unordered, intersecting or
    /// unbounded one with `MemoryRegionOverlap`.
    pub fn new(ranges: &[(GuestAddress, usize)]) -> (r: Result<GuestMemory, GuestMemoryError>)
        ensures
            match r {
                Ok(m) => m.regions@ == ranges@ && m.wf(),
                Err(e) => {
                    &&& !regions_wf(ranges@)
                    &&& e == GuestMemoryError::NoMemoryRegions <==> ranges@.len() == 0
                },
            },
    {
        if ranges.len() == 0 {
            return Err(GuestMemoryError::NoMemoryRegions);
        }
        let n = ranges.len();
        let mut i: usize = 0;
        while i < n
            invariant
                0 <= i <= n == ranges@.len(),
                forall|j: int| 0 <= j < i ==> (#[trigger] ranges@[j]).0.0 + ranges@[j].1 <= u64::MAX,
                forall|j: int|
                    0 <= j < i && j < n - 1 ==> (#[trigger] ranges@[j]).0.0 + ranges@[j].1
                        <= ranges@[j + 1].0.0,
            decreases n - i,
        {
            let (start, size) = ranges[i];
            if size as u64 > u64::MAX - start.0 {
                return Err(GuestMemoryError::MemoryRegionOverlap);
            }
            if i + 1 < n {
                if start.0 + size as u64 > ranges[i + 1].0.0 {
                    return Err(GuestMemoryError::MemoryRegionOverlap);
                }
            }
            i += 1;
        }
        let regions = vstd::slice::slice_to_vec(ranges);
        Ok(GuestMemory { regions })
    }

    /// A copy of this layout; each device transport holds its own.
    pub fn duplicate(&self) -> (r: GuestMemory)
        ensures
            r.regions@ == self.regions@,
    {
        GuestMemory { regions: vstd::slice::slice_to_vec(self.regions.as_slice()) }
    }

    /// How many regions back the guest.
    pub fn num_regions(&self) -> (r: usize)
        ensures
            r == self.regions@.len(),
    {
        self.regions.len()
    }
}

} // verus!
