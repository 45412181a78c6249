//! Ordered address bus: a map from non-overlapping `[base, base + len)`
//! guest-physical windows to device handles, kept sorted by base so lookup
//! of an access address finds the unique window containing it.

use vstd::prelude::*;

verus! {

/// Why the bus refused an insertion.
#[derive(Clone, Copy, Debug, PartialEq, Eq, Structural)]
pub enum BusError {
    /// The new window is empty or intersects a window already present.
    Overlap,
}

impl BusError {
    /// The error as text.
    pub open spec fn describe_spec(&self) -> Seq<char> {
        "new device overlaps with an old device"@
    }

    /// The error as text.
    pub fn describe(&self) -> (r: String)
        ensures
            r@ == self.describe_spec(),
    {
        String::from_str("new device overlaps with an old device")
    }
}

/// One registered window and the device behind it.
pub struct BusEntry<T> {
    pub base: u64,
    pub len: u64,
    pub device: T,
}

/// The bus itself. `entries` is ordered by ascending `base`; all verified
/// operations require and preserve [`Bus::wf`].
pub struct Bus<T> {
    pub entries: Vec<BusEntry<T>>,
}

/// True when `[b1, b1 + l1)` and `[b2, b2 + l2)` intersect.
pub open spec fn ranges_overlap(b1: u64, l1: u64, b2: u64, l2: u64) -> bool {
    b1 < b2 + l2 && b2 < b1 + l1
}

impl<T> Bus<T> {
    /// Entry `i` covers address `addr`.
    pub open spec fn entry_contains(&self, i: int, addr: u64) -> bool {
        &&& 0 <= i < self.entries@.len()
        &&& self.entries@[i].base <= addr
        &&& addr < self.entries@[i].base + self.entries@[i].len
    }

    /// Some window on the bus intersects `[base, base + len)`.
    pub open spec fn overlaps_any(&self, base: u64, len: u64) -> bool {
        exists|i: int|
            0 <= i < self.entries@.len() && ranges_overlap(
                self.entries@[i].base,
                self.entries@[i].len,
                base,
                len,
            )
    }

    /// Well-formedness: every window is non-empty and bounded, and windows
    /// are sorted with no two adjacent ones touching out of order.
    pub open spec fn wf(&self) -> bool {
        &&& forall|i: int|
            0 <= i < self.entries@.len() ==> (#[trigger] self.entries@[i]).len > 0
                && self.entries@[i].base + self.entries@[i].len <= u64::MAX
        &&& forall|i: int|
            0 <= i < self.entries@.len() - 1 ==> (#[trigger] self.entries@[i]).base
                + self.entries@[i].len <= self.entries@[i + 1].base
    }

    /// An empty bus.
    pub fn new() -> (r: Bus<T>)
        ensures
            r.entries@.len() == 0,
            r.wf(),
    {
        Bus { entries: Vec::new() }
    }

    /// Installs `device` over `[base, base + len)`. Fails with `Overlap`,
    /// changing nothing, when the window is empty or intersects an
    /// existing one; otherwise the entry enters at its sorted position.
    pub fn insert(&mut self, device: T, base: u64, len: u64) -> (r: Result<(), BusError>)
        requires
            old(self).wf(),
            base + len <= u64::MAX,
        ensures
            final(self).wf(),
            r == Err::<(), BusError>(BusError::Overlap) <==> (len == 0 || old(self).overlaps_any(
                base,
                len,
            )),
            r.is_err() ==> final(self).entries@ == old(self).entries@,
            r.is_ok() ==> exists|p: int|
                {
                    &&& 0 <= p <= old(self).entries@.len()
                    &&& final(self).entries@ == old(self).entries@.insert(
                        p,
                        BusEntry { base, len, device },
                    )
                    &&& forall|i: int| 0 <= i < p ==> (#[trigger] old(self).entries@[i]).base < base
                    &&& forall|i: int|
                        p <= i < old(self).entries@.len() ==> base < (#[trigger] old(
                            self,
                        ).entries@[i]).base
                },
            r.is_ok() && (forall|i: int|
                0 <= i < old(self).entries@.len() ==> (#[trigger] old(self).entries@[i]).base
                    < base) ==> final(self).entries@ == old(self).entries@.push(
                BusEntry { base, len, device },
            ),
    {
        if len == 0 {
            return Err(BusError::Overlap);
        }
        let n = self.entries.len();
        let mut i: usize = 0;
        while i < n
            invariant
                0 <= i <= n == self.entries@.len(),
                self.wf(),
                base + len <= u64::MAX,
                len > 0,
                forall|j: int|
                    0 <= j < i ==> !ranges_overlap(
                        (#[trigger] self.entries@[j]).base,
                        self.entries@[j].len,
                        base,
                        len,
                    ),
            decreases n - i,
        {
            let e_base = self.entries[i].base;
            let e_len = self.entries[i].len;
            if e_base < base + len && base < e_base + e_len {
                return Err(BusError::Overlap);
            }
            i += 1;
        }
        let mut p: usize = 0;
        while p < n && self.entries[p].base < base
            invariant
                0 <= p <= n == self.entries@.len(),
                self.wf(),
                forall|j: int| 0 <= j < p ==> (#[trigger] self.entries@[j]).base < base,
            decreases n - p,
        {
            p += 1;
        }
        let ghost olds = self.entries@;
        // entries at and after p have bases above base: they do not overlap
        // the new window and their own bases are at least base, never equal
        assert(forall|j: int|
            p <= j < olds.len() ==> base < (#[trigger] olds[j]).base) by {
            assert forall|j: int| p <= j < olds.len() implies base < (#[trigger] olds[j]).base by {
                if p < olds.len() {
                    if j > p {
                        lemma_sorted_bases(self, p as int, j);
                    }
                    assert(!ranges_overlap(olds[p as int].base, olds[p as int].len, base, len));
                    assert(olds[p as int].base != base);
                    assert(olds[p as int].base >= base);
                }
            }
        }
        self.entries.insert(p, BusEntry { base, len, device });
        assert(self.entries@ == olds.insert(p as int, BusEntry { base, len, device }));
        assert(self.wf()) by {
            let news = self.entries@;
            assert(forall|i: int|
                0 <= i < news.len() ==> (#[trigger] news[i]).len > 0 && news[i].base + news[i].len
                    <= u64::MAX) by {
                assert forall|i: int|
                    0 <= i < news.len() implies (#[trigger] news[i]).len > 0 && news[i].base
                    + news[i].len <= u64::MAX by {
                    if i < p {
                        assert(news[i] == olds[i]);
                    } else if i > p {
                        assert(news[i] == olds[i - 1]);
                    }
                }
            }
            assert forall|i: int|
                0 <= i < news.len() - 1 implies (#[trigger] news[i]).base + news[i].len <= news[i
                + 1].base by {
                if i + 1 < p {
                    assert(news[i] == olds[i] && news[i + 1] == olds[i + 1]);
                } else if i + 1 == p {
                    // old neighbour just below the new entry
                    assert(news[i] == olds[i]);
                    assert(olds[i].base < base);
                    assert(!ranges_overlap(olds[i].base, olds[i].len, base, len));
                } else if i == p {
                    if i < news.len() - 1 {
                        assert(news[i + 1] == olds[i]);
                        assert(base < olds[i].base);
                        assert(!ranges_overlap(olds[i].base, olds[i].len, base, len));
                    }
                } else {
                    assert(news[i] == olds[i - 1] && news[i + 1] == olds[i]);
                }
            }
        }
        proof {
            if forall|i: int| 0 <= i < olds.len() ==> (#[trigger] olds[i]).base < base {
                assert(p == n) by {
                    if p < n {
                        assert(olds[p as int].base < base);
                    }
                }
                assert(self.entries@ =~= olds.push(BusEntry { base, len, device }));
            }
        }
        Ok(())
    }

    /// Finds the window containing `addr`: gives the offset of `addr`
    /// within it and the entry's index, or `None` when no window holds it.
    pub fn get(&self, addr: u64) -> (r: Option<(u64, usize)>)
        requires
            self.wf(),
        ensures
            match r {
                Some((offset, i)) => self.entry_contains(i as int, addr) && offset == addr
                    - self.entries@[i as int].base,
                None => forall|i: int| !self.entry_contains(i, addr),
            },
    {
        let n = self.entries.len();
        let mut i: usize = 0;
        while i < n
            invariant
                0 <= i <= n == self.entries@.len(),
                self.wf(),
                forall|j: int| 0 <= j < i ==> !self.entry_contains(j, addr),
            decreases n - i,
        {
            let e_base = self.entries[i].base;
            let e_len = self.entries[i].len;
            if e_base <= addr && addr - e_base < e_len {
                return Some((addr - e_base, i));
            }
            assert(!self.entry_contains(i as int, addr));
            i += 1;
        }
        None
    }

    /// How many windows are registered.
    pub fn count(&self) -> (r: usize)
        ensures
            r == self.entries@.len(),
    {
        self.entries.len()
    }
}

/// Bases grow along the bus: on a well-formed bus, an earlier entry's
/// whole window lies below a later entry's base.
pub proof fn lemma_sorted_bases<T>(bus: &Bus<T>, i: int, j: int)
    requires
        bus.wf(),
        0 <= i < j < bus.entries@.len(),
    ensures
        bus.entries@[i].base + bus.entries@[i].len <= bus.entries@[j].base,
    decreases j - i,
{
    if i + 1 < j {
        lemma_sorted_bases(bus, i, j - 1);
        assert(bus.entries@[j - 1].base + bus.entries@[j - 1].len <= bus.entries@[j].base);
    }
}

/// Any two windows on a well-formed bus are disjoint: an address inside
/// both belongs to the same entry.
pub proof fn lemma_entries_disjoint<T>(bus: &Bus<T>, i: int, j: int)
    requires
        bus.wf(),
        0 <= i < bus.entries@.len(),
        0 <= j < bus.entries@.len(),
        i != j,
    ensures
        !ranges_overlap(
            bus.entries@[i].base,
            bus.entries@[i].len,
            bus.entries@[j].base,
            bus.entries@[j].len,
        ),
{
    if i < j {
        lemma_sorted_bases(bus, i, j);
    } else {
        lemma_sorted_bases(bus, j, i);
    }
}

/// The entry found for an address is the only one containing it.
pub proof fn lemma_containing_entry_unique<T>(bus: &Bus<T>, addr: u64, i: int, j: int)
    requires
        bus.wf(),
        bus.entry_contains(i, addr),
        bus.entry_contains(j, addr),
    ensures
        i == j,
{
    if i != j {
        lemma_entries_disjoint(bus, i, j);
    }
}

} // verus!
