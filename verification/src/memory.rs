//! The kernel's memory mapping: virtual addresses are physical addresses.
use vstd::prelude::*;

verus! {

/// The size of a page.
pub const PAGE_SIZE: usize = 4096;

/// Maps physical memory to the identical virtual addresses.
#[derive(Clone, Copy, Debug, PartialEq, Eq, Structural)]
pub struct MemoryMapper;

impl MemoryMapper {
    pub fn new() -> (m: Self)
        ensures
            m == MemoryMapper,
    {
        MemoryMapper
    }

    /// The virtual address of the `bytes` bytes at physical address
    /// `phys_start` (not 0): the same address.
    pub fn map(&mut self, phys_start: usize, bytes: usize) -> (virt: usize)
        requires
            phys_start != 0,
        ensures
            virt == phys_start,
            virt != 0,
    {
        phys_start
    }

    /// Unmapping an identity mapping changes nothing.
    pub fn unmap(&mut self, virt_start: usize, bytes: usize)
        ensures
            *final(self) == *old(self),
    {
    }
}

/// UEFI memory types (UEFI §7.2) that the kernel may take for its heap:
/// boot services code and data, and conventional memory.
pub const BOOT_SERVICES_CODE: u32 = 3;
pub const BOOT_SERVICES_DATA: u32 = 4;
pub const CONVENTIONAL_MEMORY: u32 = 7;

/// Memory of type `memory_type` is free for the kernel once boot services
/// have ended.
pub open spec fn usable_type(memory_type: u32) -> bool {
    memory_type == BOOT_SERVICES_CODE || memory_type == BOOT_SERVICES_DATA || memory_type == CONVENTIONAL_MEMORY
}

/// A region of the memory map: whether the kernel may use it, its first
/// address and its number of pages.
#[derive(Clone, Copy, Debug, PartialEq, Eq, Structural)]
pub struct MemoryRegion {
    pub usable: bool,
    pub phys_start: u64,
    pub page_count: u64,
}

/// The number of bytes of a region.
pub open spec fn region_bytes(r: MemoryRegion) -> int {
    r.page_count * PAGE_SIZE
}

impl MemoryRegion {
    /// The region of the memory-map entry of type `memory_type`.
    pub fn new(memory_type: u32, phys_start: u64, page_count: u64) -> (r: Self)
        ensures
            r.usable == usable_type(memory_type),
            r.phys_start == phys_start,
            r.page_count == page_count,
    {
        MemoryRegion {
            usable: memory_type == BOOT_SERVICES_CODE || memory_type == BOOT_SERVICES_DATA
                || memory_type == CONVENTIONAL_MEMORY,
            phys_start,
            page_count,
        }
    }

    /// The address just past the region.
    pub fn end(&self) -> (e: u64)
        requires
            self.phys_start + region_bytes(*self) <= u64::MAX,
        ensures
            e == self.phys_start + region_bytes(*self),
    {
        self.phys_start + self.page_count * (PAGE_SIZE as u64)
    }
}

/// Region `i` is the heap that the kernel takes: a usable region at least as
/// large as every usable one, and larger than every usable one after it (of
/// equally large regions the last is taken).
pub open spec fn is_heap_choice(regions: Seq<MemoryRegion>, i: int) -> bool {
    &&& 0 <= i < regions.len()
    &&& regions[i].usable
    &&& forall|j: int| 0 <= j < regions.len() && regions[j].usable ==> region_bytes(#[trigger] regions[j]) <= region_bytes(regions[i])
    &&& forall|j: int| i < j < regions.len() && regions[j].usable ==> region_bytes(#[trigger] regions[j]) < region_bytes(regions[i])
}

/// The index of the region the kernel takes for its heap (see
/// `is_heap_choice`); `None` when no region is usable.
pub fn largest_usable_region(regions: &Vec<MemoryRegion>) -> (r: Option<usize>)
    requires
        forall|j: int| 0 <= j < regions@.len() && regions@[j].usable ==> #[trigger] regions@[j].phys_start + region_bytes(regions@[j]) <= u64::MAX,
    ensures
        r matches Some(i) ==> is_heap_choice(regions@, i as int),
        r is None <==> forall|j: int| 0 <= j < regions@.len() ==> !(#[trigger] regions@[j]).usable,
{
    let mut best: Option<usize> = None;
    let mut best_bytes: u64 = 0;
    let mut k: usize = 0;
    while k < regions.len()
        invariant
            k <= regions@.len(),
            forall|j: int| 0 <= j < regions@.len() && regions@[j].usable ==> #[trigger] regions@[j].phys_start + region_bytes(regions@[j]) <= u64::MAX,
            best matches Some(i) ==> {
                &&& i < k
                &&& regions@[i as int].usable
                &&& best_bytes == region_bytes(regions@[i as int])
                &&& forall|j: int| 0 <= j < k && regions@[j].usable ==> region_bytes(#[trigger] regions@[j]) <= best_bytes
                &&& forall|j: int| i < j < k && regions@[j].usable ==> region_bytes(#[trigger] regions@[j]) < best_bytes
            },
            best is None ==> forall|j: int| 0 <= j < k ==> !(#[trigger] regions@[j]).usable,
        decreases regions@.len() - k,
    {
        let region = regions[k];
        if region.usable {
            assert(regions@[k as int].phys_start + region_bytes(regions@[k as int]) <= u64::MAX);
            let bytes = region.page_count * (PAGE_SIZE as u64);
            if best.is_none() || bytes >= best_bytes {
                best = Some(k);
                best_bytes = bytes;
            }
        }
        k = k + 1;
    }
    best
}

} // verus!
