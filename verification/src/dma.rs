//! DMA address-translation adapter.
//!
//! Bridges a DMA-capable driver's view of memory to the kernel's memory
//! subsystem: coherent buffer allocation and deallocation, and the pure
//! conversions between physical (bus) addresses and kernel virtual addresses
//! for memory-mapped register windows.  The kernel maps physical memory at a
//! fixed linear offset, so both conversions are offset arithmetic; the
//! adapter records every coherent allocation it hands out, so leaks are
//! observable in its bookkeeping.

use vstd::prelude::*;

verus! {

/// One coherent allocation: the exact triple handed to the driver, which the
/// driver must present back unchanged at deallocation time.
pub struct DmaBufferRecord {
    pub bus_addr: usize,
    pub cpu_vaddr: usize,
    pub size: usize,
}

/// Mathematical model of one allocation record.
pub struct DmaRecordModel {
    pub bus: int,
    pub vaddr: int,
    pub size: int,
}

/// Mathematical model of the adapter's state.
pub struct DmaModel {
    /// Linear offset of the kernel's physical-to-virtual mapping.
    pub offset: int,
    /// Next free bus address of the coherent pool (bump pointer).
    pub next: int,
    /// One past the last bus address of the coherent pool.
    pub limit: int,
    /// Total bytes currently allocated and not yet freed.
    pub allocated_bytes: int,
    /// The outstanding allocations, oldest first.
    pub live: Seq<DmaRecordModel>,
}

/// The adapter: owner of the coherent-memory bookkeeping and of the
/// physical/virtual conversion parameters.
pub struct DmaAdapter {
    offset: usize,
    next: usize,
    limit: usize,
    allocated_bytes: usize,
    live: Vec<DmaBufferRecord>,
}

impl DmaBufferRecord {
    pub open spec fn model(self) -> DmaRecordModel {
        DmaRecordModel {
            bus: self.bus_addr as int,
            vaddr: self.cpu_vaddr as int,
            size: self.size as int,
        }
    }
}

/// Total size of a sequence of allocation records.
pub open spec fn spec_live_bytes(live: Seq<DmaRecordModel>) -> int
    decreases live.len(),
{
    if live.len() == 0 {
        0
    } else {
        spec_live_bytes(live.drop_last()) + live.last().size
    }
}

/// Well-formed adapter state: the pool is in bounds, every virtual address in
/// the pool fits in the address space, the byte counter agrees with the
/// outstanding records, and every record lies below the bump pointer with a
/// correctly translated virtual address.
pub open spec fn spec_wf(m: DmaModel) -> bool {
    &&& 0 <= m.offset
    &&& 0 < m.next <= m.limit
    &&& m.limit + m.offset <= usize::MAX
    &&& m.allocated_bytes == spec_live_bytes(m.live)
    &&& m.allocated_bytes <= m.next
    &&& forall|i: int|
        0 <= i < m.live.len() ==> {
            &&& m.live[i].size > 0
            &&& 0 < m.live[i].bus
            &&& m.live[i].bus + m.live[i].size <= m.next
            &&& m.live[i].vaddr == m.live[i].bus + m.offset
        }
}

/// Physical-to-virtual conversion for a linear mapping at `offset`.
pub open spec fn spec_mmio_to_virtual(offset: int, paddr: int) -> int {
    paddr + offset
}

/// Virtual-to-physical conversion for a linear mapping at `offset`.
pub open spec fn spec_virtual_to_mmio(offset: int, vaddr: int) -> int {
    vaddr - offset
}

/// Whether an allocation of `size` bytes can succeed in state `m`.
pub open spec fn spec_can_allocate(m: DmaModel, size: int) -> bool {
    0 < size && m.next + size <= m.limit
}

/// The allocation transition: the new state, the bus address and the virtual
/// address returned.  On failure the state is unchanged and the sentinel
/// pair (0, 0) is returned.
pub open spec fn spec_allocate(m: DmaModel, size: int) -> (DmaModel, int, int) {
    if spec_can_allocate(m, size) {
        (
            DmaModel {
                next: m.next + size,
                allocated_bytes: m.allocated_bytes + size,
                live: m.live.push(
                    DmaRecordModel { bus: m.next, vaddr: m.next + m.offset, size },
                ),
                ..m
            },
            m.next,
            m.next + m.offset,
        )
    } else {
        (m, 0, 0)
    }
}

/// Index of the first record equal to `rec`, or -1 if none is outstanding.
pub open spec fn spec_find(live: Seq<DmaRecordModel>, rec: DmaRecordModel) -> int
    decreases live.len(),
{
    if live.len() == 0 {
        -1
    } else if live[0] == rec {
        0
    } else {
        let rest = spec_find(live.drop_first(), rec);
        if rest < 0 {
            -1
        } else {
            rest + 1
        }
    }
}

/// The deallocation transition: the first record equal to the presented
/// triple leaves the bookkeeping and its size is returned to the counter; a
/// triple that is not outstanding changes nothing.
pub open spec fn spec_deallocate(m: DmaModel, rec: DmaRecordModel) -> DmaModel {
    let at = spec_find(m.live, rec);
    if at < 0 {
        m
    } else {
        DmaModel {
            allocated_bytes: m.allocated_bytes - rec.size,
            live: m.live.remove(at),
            ..m
        }
    }
}

impl DmaAdapter {
    pub closed spec fn model(&self) -> DmaModel {
        DmaModel {
            offset: self.offset as int,
            next: self.next as int,
            limit: self.limit as int,
            allocated_bytes: self.allocated_bytes as int,
            live: self.live@.map_values(|r: DmaBufferRecord| r.model()),
        }
    }

    pub open spec fn wf(&self) -> bool {
        spec_wf(self.model())
    }

    /// Builds an adapter for a kernel that maps physical memory linearly at
    /// `offset`, with a coherent pool covering bus addresses
    /// `pool_base .. pool_base + pool_size`.  The pool must start above the
    /// sentinel address 0 and its virtual image must fit in the address
    /// space.
    pub fn new(offset: usize, pool_base: usize, pool_size: usize) -> (r: DmaAdapter)
        requires
            0 < pool_base,
            pool_base + pool_size + offset <= usize::MAX,
        ensures
            r.wf(),
            r.model() == (DmaModel {
                offset: offset as int,
                next: pool_base as int,
                limit: pool_base + pool_size,
                allocated_bytes: 0,
                live: Seq::<DmaRecordModel>::empty(),
            }),
    {
        let r = DmaAdapter {
            offset,
            next: pool_base,
            limit: pool_base + pool_size,
            allocated_bytes: 0,
            live: Vec::new(),
        };
        proof {
            assert(r.model().live =~= Seq::<DmaRecordModel>::empty());
        }
        r
    }

    /// Converts a physical address of a memory-mapped register window to the
    /// kernel virtual address it is mapped at.  Never fails for an address
    /// inside the mapped range; an unmapped address is a programming error
    /// and is excluded by the precondition.
    pub fn mmio_to_virtual(&self, paddr: usize) -> (vaddr: usize)
        requires
            paddr + self.model().offset <= usize::MAX,
        ensures
            vaddr == spec_mmio_to_virtual(self.model().offset, paddr as int),
    {
        paddr + self.offset
    }

    /// Converts a kernel virtual address inside the linear mapping back to
    /// the physical address of the register window.
    pub fn virtual_to_mmio(&self, vaddr: usize) -> (paddr: usize)
        requires
            vaddr >= self.model().offset,
        ensures
            paddr == spec_virtual_to_mmio(self.model().offset, vaddr as int),
    {
        vaddr - self.offset
    }

    /// Busy-wait timing primitive for hardware-timeout polling.  In this
    /// design it always reports success once the duration has elapsed;
    /// detecting that a polled condition never came true is the caller's
    /// retry logic, not the adapter's.
    pub fn wait_until(&self, _duration_nanos: u64) -> (r: Result<(), &'static str>)
        ensures
            r is Ok,
    {
        Ok(())
    }
}

/// Pushing a record adds its size to the total.
pub proof fn lemma_live_bytes_push(live: Seq<DmaRecordModel>, rec: DmaRecordModel)
    ensures
        spec_live_bytes(live.push(rec)) == spec_live_bytes(live) + rec.size,
{
    assert(live.push(rec).drop_last() =~= live);
}

/// The total of a sequence of records with positive sizes is nonnegative,
/// and each record contributes no more than the total.
pub proof fn lemma_live_bytes_bounds(live: Seq<DmaRecordModel>)
    requires
        forall|i: int| 0 <= i < live.len() ==> live[i].size > 0,
    ensures
        spec_live_bytes(live) >= 0,
        forall|i: int| 0 <= i < live.len() ==> live[i].size <= spec_live_bytes(live),
    decreases live.len(),
{
    if live.len() > 0 {
        lemma_live_bytes_bounds(live.drop_last());
        assert forall|i: int| 0 <= i < live.len() implies live[i].size <= spec_live_bytes(
            live,
        ) by {
            if i < live.len() - 1 {
                assert(live.drop_last()[i] == live[i]);
            }
        }
    }
}

/// Removing a record subtracts its size from the total.
pub proof fn lemma_live_bytes_remove(live: Seq<DmaRecordModel>, i: int)
    requires
        0 <= i < live.len(),
    ensures
        spec_live_bytes(live.remove(i)) == spec_live_bytes(live) - live[i].size,
    decreases live.len(),
{
    if i == live.len() - 1 {
        assert(live.remove(i) =~= live.drop_last());
    } else {
        assert(live.remove(i).drop_last() =~= live.drop_last().remove(i));
        lemma_live_bytes_remove(live.drop_last(), i);
        assert(live.remove(i).last() == live.last());
    }
}

/// `spec_find` returns -1 exactly when no record matches, and otherwise the
/// index of the first match.
pub proof fn lemma_find_characterization(live: Seq<DmaRecordModel>, rec: DmaRecordModel)
    ensures
        spec_find(live, rec) == -1 <==> (forall|i: int|
            0 <= i < live.len() ==> live[i] != rec),
        spec_find(live, rec) != -1 ==> {
            let at = spec_find(live, rec);
            &&& 0 <= at < live.len()
            &&& live[at] == rec
            &&& forall|i: int| 0 <= i < at ==> live[i] != rec
        },
    decreases live.len(),
{
    if live.len() > 0 && live[0] != rec {
        let rest = live.drop_first();
        lemma_find_characterization(rest, rec);
        assert forall|i: int| 1 <= i < live.len() implies live[i] == rest[i - 1] by {
            assert(rest[i - 1] == live[i]);
        }
        if spec_find(rest, rec) == -1 {
            assert forall|i: int| 0 <= i < live.len() implies live[i] != rec by {
                if i >= 1 {
                    assert(rest[i - 1] != rec);
                }
            }
        } else {
            let at = spec_find(rest, rec);
            assert(live[at + 1] == rest[at]);
            assert forall|i: int| 0 <= i < at + 1 implies live[i] != rec by {
                if i >= 1 {
                    assert(rest[i - 1] != rec);
                }
            }
        }
    }
}

impl DmaAdapter {
    /// Total bytes currently allocated and not yet freed: the instrumented
    /// counter a harness observes for leak detection.
    pub fn allocated_bytes(&self) -> (r: usize)
        ensures
            r == self.model().allocated_bytes,
    {
        self.allocated_bytes
    }

    /// Requests a physically contiguous, cache-coherent region of `size`
    /// bytes and returns its (bus address, cpu virtual address) pair.  On
    /// failure — a zero size or an exhausted pool — it returns the sentinel
    /// pair (0, 0) rather than propagating a hard fault; a successful
    /// allocation never returns a zero bus address, so the caller can detect
    /// failure from the pair alone.
    pub fn allocate_coherent(&mut self, size: usize) -> (r: (usize, usize))
        requires
            old(self).wf(),
        ensures
            final(self).wf(),
            final(self).model() == spec_allocate(old(self).model(), size as int).0,
            r.0 as int == spec_allocate(old(self).model(), size as int).1,
            r.1 as int == spec_allocate(old(self).model(), size as int).2,
            r.0 != 0 <==> spec_can_allocate(old(self).model(), size as int),
    {
        if size == 0 || size > self.limit - self.next {
            return (0, 0);
        }
        let bus_addr = self.next;
        let cpu_vaddr = bus_addr + self.offset;
        let rec = DmaBufferRecord { bus_addr, cpu_vaddr, size };
        proof {
            lemma_live_bytes_push(self.model().live, rec.model());
        }
        self.next = self.next + size;
        self.allocated_bytes = self.allocated_bytes + size;
        self.live.push(rec);
        proof {
            assert(self.model().live =~= old(self).model().live.push(rec.model()));
            assert(self.model() == spec_allocate(old(self).model(), size as int).0);
        }
        (bus_addr, cpu_vaddr)
    }

    /// Releases a previously allocated coherent region.  The caller must
    /// present the exact triple returned by `allocate_coherent`: that the
    /// triple is still outstanding is a caller obligation, not a condition
    /// the adapter recovers from.
    pub fn deallocate_coherent(&mut self, bus_addr: usize, cpu_vaddr: usize, size: usize)
        requires
            old(self).wf(),
            exists|i: int|
                0 <= i < old(self).model().live.len() && old(self).model().live[i]
                    == (DmaRecordModel {
                    bus: bus_addr as int,
                    vaddr: cpu_vaddr as int,
                    size: size as int,
                }),
        ensures
            final(self).wf(),
            final(self).model() == spec_deallocate(
                old(self).model(),
                DmaRecordModel { bus: bus_addr as int, vaddr: cpu_vaddr as int, size: size as int },
            ),
    {
        let ghost rec = DmaRecordModel {
            bus: bus_addr as int,
            vaddr: cpu_vaddr as int,
            size: size as int,
        };
        proof {
            lemma_find_characterization(self.model().live, rec);
        }
        let mut at: usize = 0;
        while at < self.live.len()
            invariant
                rec == (DmaRecordModel {
                    bus: bus_addr as int,
                    vaddr: cpu_vaddr as int,
                    size: size as int,
                }),
                0 <= at <= self.live.len(),
                forall|i: int| 0 <= i < at ==> self.model().live[i] != rec,
                exists|i: int|
                    0 <= i < self.model().live.len() && self.model().live[i] == rec,
            ensures
                at < self.live.len(),
                self.model().live[at as int] == rec,
                forall|i: int| 0 <= i < at ==> self.model().live[i] != rec,
            decreases self.live.len() - at,
        {
            let rb = self.live[at].bus_addr;
            let rv = self.live[at].cpu_vaddr;
            let rs = self.live[at].size;
            if rb == bus_addr && rv == cpu_vaddr && rs == size {
                proof {
                    assert(self.model().live[at as int] == self.live@[at as int].model());
                    assert(self.live@[at as int].model() == rec);
                }
                break;
            }
            proof {
                assert(self.model().live[at as int] == self.live@[at as int].model());
                assert(self.live@[at as int].model() != rec);
            }
            at = at + 1;
        }
        proof {
            assert(spec_find(self.model().live, rec) == at as int);
            lemma_live_bytes_remove(self.model().live, at as int);
            lemma_live_bytes_bounds(self.model().live);
        }
        self.live.remove(at);
        self.allocated_bytes = self.allocated_bytes - size;
        proof {
            assert(self.model().live =~= old(self).model().live.remove(at as int));
            assert(self.model() == spec_deallocate(old(self).model(), rec));
        }
    }
}

/// Deallocating the exact triple returned by a successful allocation
/// restores the adapter's bookkeeping: the outstanding records and the
/// allocated-byte counter return to their values before the allocation, so
/// the round trip is not observable as a leak.
pub proof fn lemma_coherent_roundtrip(m: DmaModel, size: int)
    requires
        spec_wf(m),
        spec_can_allocate(m, size),
    ensures
        ({
            let allocated = spec_allocate(m, size);
            let rec = DmaRecordModel { bus: allocated.1, vaddr: allocated.2, size };
            let m2 = spec_deallocate(allocated.0, rec);
            &&& m2.allocated_bytes == m.allocated_bytes
            &&& m2.live =~= m.live
        }),
{
    let allocated = spec_allocate(m, size);
    let rec = DmaRecordModel { bus: allocated.1, vaddr: allocated.2, size };
    let live1 = allocated.0.live;
    assert(live1 == m.live.push(rec));
    assert forall|i: int| 0 <= i < m.live.len() implies m.live[i] != rec by {
        assert(m.live[i].bus + m.live[i].size <= m.next);
    }
    lemma_find_characterization(live1, rec);
    assert(live1[m.live.len() as int] == rec);
    assert(forall|i: int| 0 <= i < m.live.len() ==> live1[i] == m.live[i]);
    assert(spec_find(live1, rec) == m.live.len() as int);
    assert(live1.remove(m.live.len() as int) =~= m.live);
}

/// Converting a physical address to its kernel virtual address and back
/// returns the original address: the two conversions of the linear mapping
/// invert each other on every physical address.
pub proof fn lemma_address_conversion_roundtrip(offset: int, paddr: int)
    ensures
        spec_virtual_to_mmio(offset, spec_mmio_to_virtual(offset, paddr)) == paddr,
        spec_mmio_to_virtual(offset, spec_virtual_to_mmio(offset, paddr)) == paddr,
{
}

} // verus!
