//! The memory service: hands out regions of virtual memory and keeps track
//! of them.

use crate::addr::{canonical_form, virt_addr};
use crate::ordered::{enumerates, keys_in_order, lemma_enumeration_unique};
use std::collections::BTreeMap;
use vstd::prelude::*;

verus! {

/// Address from which regions are laid out.
pub const REGION_BASE: u64 = 0x1000_0000;

/// What may be done with the memory of a region.
#[derive(Debug, Clone, Copy, PartialEq, Eq, Structural)]
pub enum MemoryPermissions {
    ReadOnly,
    ReadWrite,
    Execute,
    ReadWriteExecute,
}

/// Errors of the memory service.
#[derive(Debug, Clone, Copy, PartialEq, Eq, Structural)]
pub enum MemoryError {
    OutOfMemory,
    InvalidAddress,
    PermissionDenied,
    RegionNotFound,
    AlreadyAllocated,
}

/// A region of virtual memory.  `start_addr` is a canonical virtual address.
#[derive(Debug, Clone, Copy, PartialEq, Eq, Structural)]
pub struct MemoryRegion {
    pub id: u64,
    pub start_addr: u64,
    pub size: usize,
    pub permissions: MemoryPermissions,
    pub is_allocated: bool,
}

/// The address just behind a region, if there is one: the canonical form of
/// start plus size.
pub open spec fn region_end(region: MemoryRegion) -> Option<u64> {
    if region.start_addr + region.size <= u64::MAX {
        canonical_form((region.start_addr + region.size) as u64)
    } else {
        None
    }
}

/// `addr` lies in `region`.  A region without an end holds no address.
pub open spec fn region_holds(region: MemoryRegion, addr: u64) -> bool {
    &&& region.is_allocated
    &&& region_end(region) matches Some(end)
    &&& region.start_addr <= addr < end
}

/// Where the region with this id and size is laid out, before the address
/// is made canonical: regions follow each other from the base, each at its
/// id times its size.
pub open spec fn region_address(id: u64, size: usize) -> int {
    REGION_BASE + id * size
}

/// The region that `allocate_region` makes for this id, size and
/// permissions, if its start is a virtual address.
pub open spec fn new_region(id: u64, size: usize, permissions: MemoryPermissions) -> Option<
    MemoryRegion,
> {
    if region_address(id, size) <= u64::MAX && canonical_form(region_address(id, size) as u64)
        is Some {
        Some(
            MemoryRegion {
                id,
                start_addr: canonical_form(region_address(id, size) as u64)->0,
                size,
                permissions,
                is_allocated: true,
            },
        )
    } else {
        None
    }
}

/// What a memory service stands for.
pub struct MemoryState {
    /// The allocated regions, by id.
    pub regions: Map<u64, MemoryRegion>,
    /// The id that the next region will get.
    pub next_region_id: u64,
}

impl MemoryState {
    /// The invariant of a memory service: there are finitely many regions;
    /// each is filed under its own id, which is below the next id to be
    /// issued; it is allocated, not empty, and starts where a region of its
    /// id and size is laid out.
    pub open spec fn wf(self) -> bool {
        &&& self.next_region_id >= 1
        &&& self.regions.dom().finite()
        &&& forall|id: u64| #[trigger]
            self.regions.contains_key(id) ==> {
                &&& 1 <= id < self.next_region_id
                &&& self.regions[id].id == id
                &&& self.regions[id].is_allocated
                &&& self.regions[id].size > 0
                &&& new_region(id, self.regions[id].size, self.regions[id].permissions) == Some(
                    self.regions[id],
                )
            }
    }
}

/// Outcome of allocating a region.
///
/// An empty region is refused with `InvalidAddress`.  When the ids are
/// used up, or the place of the region is no virtual address, the call
/// fails with `OutOfMemory`.  Otherwise the region gets the id that was
/// next.  A failed call changes nothing.
pub open spec fn allocate_outcome(
    before: MemoryState,
    size: usize,
    permissions: MemoryPermissions,
) -> (MemoryState, Result<u64, MemoryError>) {
    if size == 0 {
        (before, Err(MemoryError::InvalidAddress))
    } else if before.next_region_id == u64::MAX {
        (before, Err(MemoryError::OutOfMemory))
    } else {
        match new_region(before.next_region_id, size, permissions) {
            Some(region) => (
                MemoryState {
                    regions: before.regions.insert(before.next_region_id, region),
                    next_region_id: (before.next_region_id + 1) as u64,
                },
                Ok(before.next_region_id),
            ),
            None => (before, Err(MemoryError::OutOfMemory)),
        }
    }
}

/// Outcome of deallocating a region.
pub open spec fn deallocate_outcome(before: MemoryState, region_id: u64) -> (
    MemoryState,
    Result<(), MemoryError>,
) {
    if before.regions.contains_key(region_id) {
        (MemoryState { regions: before.regions.remove(region_id), ..before }, Ok(()))
    } else {
        (before, Err(MemoryError::RegionNotFound))
    }
}

/// The ids of the regions, smallest first.
pub open spec fn region_ids(regions: Map<u64, MemoryRegion>) -> Seq<u64> {
    choose|ids: Seq<u64>| enumerates(ids, regions.dom())
}

/// What the region with this id adds to the allocated memory: its size, or
/// nothing when there is no such region or it is not allocated.
pub open spec fn allocated_size(regions: Map<u64, MemoryRegion>, id: u64) -> nat {
    if regions.contains_key(id) && regions[id].is_allocated {
        regions[id].size as nat
    } else {
        0
    }
}

/// The sizes of the allocated regions with ids below `bound`, added up.
pub open spec fn allocated_below(regions: Map<u64, MemoryRegion>, bound: nat) -> nat
    decreases bound,
{
    if bound == 0 {
        0
    } else if bound - 1 <= u64::MAX {
        allocated_below(regions, (bound - 1) as nat) + allocated_size(
            regions,
            (bound - 1) as u64,
        )
    } else {
        allocated_below(regions, (bound - 1) as nat)
    }
}

/// The number of ids.
pub open spec fn id_range() -> nat {
    0x1_0000_0000_0000_0000
}

/// The sizes of all allocated regions, added up.
pub open spec fn total_allocated(regions: Map<u64, MemoryRegion>) -> nat {
    allocated_below(regions, id_range())
}

/// The sum up to a bound is at most the sum up to a larger bound.
pub proof fn lemma_allocated_below_grows(regions: Map<u64, MemoryRegion>, low: nat, high: nat)
    requires
        low <= high,
    ensures
        allocated_below(regions, low) <= allocated_below(regions, high),
    decreases high - low,
{
    if low < high {
        lemma_allocated_below_grows(regions, low, (high - 1) as nat);
    }
}

/// Ids without a region add nothing to the sum.
pub proof fn lemma_allocated_below_gap(regions: Map<u64, MemoryRegion>, low: nat, high: nat)
    requires
        low <= high <= id_range(),
        forall|id: u64| low <= id < high ==> !regions.contains_key(id),
    ensures
        allocated_below(regions, high) == allocated_below(regions, low),
    decreases high - low,
{
    if low < high {
        lemma_allocated_below_gap(regions, low, (high - 1) as nat);
        assert(!regions.contains_key((high - 1) as u64));
    }
}

/// A new region adds its size to the sums that reach its id.
pub proof fn lemma_allocated_below_insert(
    regions: Map<u64, MemoryRegion>,
    id: u64,
    region: MemoryRegion,
    bound: nat,
)
    requires
        !regions.contains_key(id),
        bound <= id_range(),
    ensures
        allocated_below(regions.insert(id, region), bound) == allocated_below(regions, bound) + (
        if id < bound && region.is_allocated {
            region.size as nat
        } else {
            0
        }),
    decreases bound,
{
    if bound > 0 {
        lemma_allocated_below_insert(regions, id, region, (bound - 1) as nat);
    }
}

/// A region that is taken away takes its size off the sums that reach its
/// id.
pub proof fn lemma_allocated_below_remove(regions: Map<u64, MemoryRegion>, id: u64, bound: nat)
    requires
        bound <= id_range(),
    ensures
        allocated_below(regions.remove(id), bound) + (if id < bound {
            allocated_size(regions, id)
        } else {
            0
        }) == allocated_below(regions, bound),
    decreases bound,
{
    if bound > 0 {
        lemma_allocated_below_remove(regions, id, (bound - 1) as nat);
    }
}

/// Without regions nothing is allocated.
pub proof fn lemma_nothing_allocated()
    ensures
        total_allocated(Map::<u64, MemoryRegion>::empty()) == 0,
{
    lemma_allocated_below_gap(Map::<u64, MemoryRegion>::empty(), 0, id_range());
}

/// Memory service: handles memory allocation and mapping.
pub struct MemoryService {
    next_region_id: u64,
    allocated_regions: BTreeMap<u64, MemoryRegion>,
}

impl View for MemoryService {
    type V = MemoryState;

    closed spec fn view(&self) -> MemoryState {
        MemoryState { regions: self.allocated_regions@, next_region_id: self.next_region_id }
    }
}

/// `listing` holds the regions in id order.
pub open spec fn lists_regions(listing: Seq<MemoryRegion>, regions: Map<u64, MemoryRegion>) -> bool {
    &&& enumerates(region_ids(regions), regions.dom())
    &&& listing.len() == region_ids(regions).len()
    &&& forall|i: int|
        0 <= i < listing.len() ==> #[trigger] listing[i] == regions[region_ids(regions)[i]]
}

/// Some region holds `addr`.
pub open spec fn address_is_valid(regions: Map<u64, MemoryRegion>, addr: u64) -> bool {
    exists|id: u64| regions.contains_key(id) && region_holds(#[trigger] regions[id], addr)
}

impl MemoryService {
    /// The invariant of the service; see `MemoryState::wf`.
    pub open spec fn wf(&self) -> bool {
        self@.wf()
    }

    /// A service without regions.  The first region will get id 1.
    pub fn new() -> (service: Self)
        ensures
            service.wf(),
            service@ == (MemoryState { regions: Map::empty(), next_region_id: 1 }),
    {
        MemoryService { next_region_id: 1, allocated_regions: BTreeMap::new() }
    }

    /// Allocates a new memory region.
    pub fn allocate_region(&mut self, size: usize, permissions: MemoryPermissions) -> (result:
        Result<u64, MemoryError>)
        requires
            old(self).wf(),
        ensures
            final(self).wf(),
            final(self)@ == allocate_outcome(old(self)@, size, permissions).0,
            result == allocate_outcome(old(self)@, size, permissions).1,
    {
        if size == 0 {
            return Err(MemoryError::InvalidAddress);
        }
        if self.next_region_id == u64::MAX {
            return Err(MemoryError::OutOfMemory);
        }
        let region_id = self.next_region_id;
        let span = match region_id.checked_mul(size as u64) {
            Some(span) => span,
            None => {
                return Err(MemoryError::OutOfMemory);
            },
        };
        let address = match REGION_BASE.checked_add(span) {
            Some(address) => address,
            None => {
                return Err(MemoryError::OutOfMemory);
            },
        };
        let start_addr = match virt_addr(address) {
            Some(start) => start,
            None => {
                return Err(MemoryError::OutOfMemory);
            },
        };
        let region = MemoryRegion { id: region_id, start_addr, size, permissions, is_allocated: true };
        self.next_region_id = region_id + 1;
        self.allocated_regions.insert(region_id, region);
        Ok(region_id)
    }

    /// Deallocates a memory region.
    pub fn deallocate_region(&mut self, region_id: u64) -> (result: Result<(), MemoryError>)
        requires
            old(self).wf(),
        ensures
            final(self).wf(),
            final(self)@ == deallocate_outcome(old(self)@, region_id).0,
            result == deallocate_outcome(old(self)@, region_id).1,
    {
        match self.allocated_regions.remove(&region_id) {
            Some(_) => Ok(()),
            None => {
                assert(self@.regions == old(self)@.regions);
                Err(MemoryError::RegionNotFound)
            },
        }
    }

    /// Maps a memory region to physical memory at `physical_addr`.  The
    /// mapping itself is left to the paging code: the call only says
    /// whether there is such a region.
    pub fn map_region(&mut self, region_id: u64, physical_addr: u64) -> (result: Result<
        (),
        MemoryError,
    >)
        ensures
            final(self)@ == old(self)@,
            old(self)@.regions.contains_key(region_id) && old(self)@.regions[region_id].is_allocated
                ==> result is Ok,
            !(old(self)@.regions.contains_key(region_id)
                && old(self)@.regions[region_id].is_allocated) ==> result == Err::<
                (),
                MemoryError,
            >(MemoryError::RegionNotFound),
    {
        match self.allocated_regions.get(&region_id) {
            Some(region) => {
                if !region.is_allocated {
                    return Err(MemoryError::RegionNotFound);
                }
                Ok(())
            },
            None => Err(MemoryError::RegionNotFound),
        }
    }

    /// Information about a memory region.
    pub fn get_region_info(&self, region_id: u64) -> (region: Option<&MemoryRegion>)
        ensures
            match region {
                Some(region) => self@.regions.contains_key(region_id) && *region
                    == self@.regions[region_id],
                None => !self@.regions.contains_key(region_id),
            },
    {
        self.allocated_regions.get(&region_id)
    }

    /// All regions, in id order.
    pub fn list_regions(&self) -> (listing: Vec<&MemoryRegion>)
        ensures
            lists_regions(listing@.map_values(|region: &MemoryRegion| *region), self@.regions),
    {
        let ids = keys_in_order(&self.allocated_regions);
        proof {
            lemma_enumeration_unique(ids@, region_ids(self@.regions), self@.regions.dom());
        }
        let mut listing: Vec<&MemoryRegion> = Vec::new();
        let mut i: usize = 0;
        while i < ids.len()
            invariant
                0 <= i <= ids.len(),
                enumerates(ids@, self@.regions.dom()),
                self@.regions == self.allocated_regions@,
                listing@.len() == i,
                forall|k: int| 0 <= k < i ==> *(#[trigger] listing@[k]) == self@.regions[ids@[k]],
            decreases ids.len() - i,
        {
            let id = ids[i];
            assert(ids@.contains(id));
            match self.allocated_regions.get(&id) {
                Some(region) => {
                    listing.push(region);
                },
                None => {
                    assert(false);
                },
            }
            i = i + 1;
        }
        listing
    }

    /// Whether an address lies within an allocated region.
    pub fn is_address_valid(&self, addr: u64) -> (valid: bool)
        ensures
            valid <==> address_is_valid(self@.regions, addr),
    {
        let ids = keys_in_order(&self.allocated_regions);
        let mut i: usize = 0;
        while i < ids.len()
            invariant
                0 <= i <= ids.len(),
                enumerates(ids@, self@.regions.dom()),
                self@.regions == self.allocated_regions@,
                forall|k: int| 0 <= k < i ==> !region_holds(self@.regions[#[trigger] ids@[k]], addr),
            decreases ids.len() - i,
        {
            let id = ids[i];
            assert(ids@.contains(id));
            match self.allocated_regions.get(&id) {
                Some(region) => {
                    if region.is_allocated && addr >= region.start_addr {
                        match end_of(region) {
                            Some(end) => {
                                if addr < end {
                                    return true;
                                }
                            },
                            None => {},
                        }
                    }
                },
                None => {},
            }
            i = i + 1;
        }
        proof {
            assert forall|id: u64| self@.regions.contains_key(id) implies !region_holds(
                #[trigger] self@.regions[id],
                addr,
            ) by {
                assert(ids@.contains(id));
                let k = choose|k: int| 0 <= k < ids@.len() && ids@[k] == id;
                assert(!region_holds(self@.regions[ids@[k]], addr));
            }
        }
        false
    }

    /// The sizes of all allocated regions, added up.  The sum has to fit
    /// the range of sizes.
    pub fn get_total_allocated(&self) -> (total: usize)
        requires
            total_allocated(self@.regions) <= usize::MAX,
        ensures
            total == total_allocated(self@.regions),
    {
        let ids = keys_in_order(&self.allocated_regions);
        let mut total: usize = 0;
        let mut i: usize = 0;
        let ghost mut bound: nat = 0;
        while i < ids.len()
            invariant
                0 <= i <= ids.len(),
                enumerates(ids@, self@.regions.dom()),
                self@.regions == self.allocated_regions@,
                total_allocated(self@.regions) <= usize::MAX,
                bound <= id_range(),
                i == 0 ==> bound == 0,
                i > 0 ==> bound == ids@[i - 1] + 1,
                total == allocated_below(self@.regions, bound),
            decreases ids.len() - i,
        {
            let id = ids[i];
            proof {
                assert(ids@.contains(id));
                assert forall|other: u64| bound <= other < id implies !self@.regions.contains_key(
                    other,
                ) by {
                    if self@.regions.contains_key(other) {
                        assert(ids@.contains(other));
                        let j = choose|j: int| 0 <= j < ids@.len() && ids@[j] == other;
                        if j < i {
                            assert(ids@[j] <= ids@[i - 1]);
                        } else if j > i {
                            assert(ids@[i as int] < ids@[j]);
                        }
                    }
                }
                lemma_allocated_below_gap(self@.regions, bound, id as nat);
                lemma_allocated_below_grows(self@.regions, (id + 1) as nat, id_range());
            }
            match self.allocated_regions.get(&id) {
                Some(region) => {
                    if region.is_allocated {
                        total = total + region.size;
                    }
                },
                None => {},
            }
            proof {
                bound = (id + 1) as nat;
            }
            i = i + 1;
        }
        proof {
            assert forall|other: u64| bound <= other < id_range() implies !self@.regions.contains_key(
                other,
            ) by {
                if self@.regions.contains_key(other) {
                    assert(ids@.contains(other));
                    let j = choose|j: int| 0 <= j < ids@.len() && ids@[j] == other;
                    if j < ids@.len() - 1 {
                        assert(ids@[j] < ids@[ids@.len() - 1]);
                    }
                }
            }
            lemma_allocated_below_gap(self@.regions, bound, id_range());
        }
        total
    }
}

/// Allocates a region in `service`; see `MemoryService::allocate_region`.
pub fn allocate_memory(service: &mut MemoryService, size: usize, permissions: MemoryPermissions) -> (result:
    Result<u64, MemoryError>)
    requires
        old(service).wf(),
    ensures
        final(service).wf(),
        final(service)@ == allocate_outcome(old(service)@, size, permissions).0,
        result == allocate_outcome(old(service)@, size, permissions).1,
{
    service.allocate_region(size, permissions)
}

/// Deallocates a region of `service`; see
/// `MemoryService::deallocate_region`.
pub fn deallocate_memory(service: &mut MemoryService, region_id: u64) -> (result: Result<
    (),
    MemoryError,
>)
    requires
        old(service).wf(),
    ensures
        final(service).wf(),
        final(service)@ == deallocate_outcome(old(service)@, region_id).0,
        result == deallocate_outcome(old(service)@, region_id).1,
{
    service.deallocate_region(region_id)
}

/// A copy of the region of `service` with this id, if there is one.
pub fn get_memory_info(service: &MemoryService, region_id: u64) -> (region: Option<MemoryRegion>)
    ensures
        match region {
            Some(region) => service@.regions.contains_key(region_id) && region
                == service@.regions[region_id],
            None => !service@.regions.contains_key(region_id),
        },
{
    match service.get_region_info(region_id) {
        Some(region) => Some(*region),
        None => None,
    }
}

/// Copies of all regions of `service`, in id order.
pub fn list_memory_regions(service: &MemoryService) -> (listing: Vec<MemoryRegion>)
    ensures
        lists_regions(listing@, service@.regions),
{
    let regions = service.list_regions();
    let mut listing: Vec<MemoryRegion> = Vec::new();
    let mut i: usize = 0;
    while i < regions.len()
        invariant
            0 <= i <= regions.len(),
            listing@.len() == i,
            forall|k: int| 0 <= k < i ==> #[trigger] listing@[k] == *regions@[k],
        decreases regions.len() - i,
    {
        listing.push(*regions[i]);
        i = i + 1;
    }
    assert(listing@ =~= regions@.map_values(|region: &MemoryRegion| *region));
    listing
}

/// The address just behind a region, if there is one.
fn end_of(region: &MemoryRegion) -> (end: Option<u64>)
    ensures
        end == region_end(*region),
{
    match region.start_addr.checked_add(region.size as u64) {
        Some(sum) => virt_addr(sum),
        None => None,
    }
}

} // verus!
