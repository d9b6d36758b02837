use lemola::allocator::{align_and_boundary_to, ceil, BoundaryAlloc, BumpAllocator, FixedLengthAllocator, Layout};
use lemola::allocator::{alloc_array_with_boundary, alloc_with_boundary, AllocationError};

#[test]
fn ceil_test() {
    assert_eq!(ceil(100, 4), 100);
    assert_eq!(ceil(101, 4), 104);
}

#[test]
fn align_and_boundary_to_test() {
    assert_eq!(
        align_and_boundary_to(0x1111, Layout::from_size_align(0x100, 0x2000).unwrap(), 0x400),
        Ok(0x2000..0x2100),
    );
}

#[test]
fn align_and_boundary_moves_past_a_boundary() {
    // 0x3f0..0x430 would cross 0x400, so the block starts at 0x400
    assert_eq!(
        align_and_boundary_to(0x3f0, Layout::from_size_align(0x40, 0x10).unwrap(), 0x400),
        Ok(0x400..0x440),
    );
    // fits before the boundary: stays
    assert_eq!(
        align_and_boundary_to(0x300, Layout::from_size_align(0x40, 0x10).unwrap(), 0x400),
        Ok(0x300..0x340),
    );
    // no boundary
    assert_eq!(
        align_and_boundary_to(0x3f1, Layout::from_size_align(0x40, 0x10).unwrap(), 0),
        Ok(0x400..0x440),
    );
}

#[test]
fn align_and_boundary_overflow_is_an_error() {
    let layout = Layout::from_size_align(0x100, 1).unwrap();
    assert_eq!(align_and_boundary_to(usize::MAX - 0x10, layout, 0), Err(()));
}

#[test]
fn layout_refuses_bad_alignment() {
    assert!(Layout::from_size_align(8, 3).is_err());
    assert!(Layout::from_size_align(8, 0).is_err());
    assert!(Layout::from_size_align(isize::MAX as usize, 2).is_err());
    let l = Layout::from_size_align(8, 16).unwrap();
    assert_eq!((l.size(), l.align()), (8, 16));
}

#[test]
fn bump_allocator_hands_out_increasing_blocks_and_resets() {
    let mut a = BumpAllocator::new();
    a.init(0x1000, 0x2000);
    let l = Layout::from_size_align(0x10, 0x10).unwrap();
    let p1 = a.allocate(l, 0);
    let p2 = a.allocate(l, 0);
    assert_eq!(p1, 0x1000);
    assert_eq!(p2, 0x1010);
    a.dealloc(p1, l);
    // one allocation still live: no address is reused
    assert_eq!(a.next_free(), 0x1020);
    assert_eq!(a.live_allocations(), 1);
    a.dealloc(p2, l);
    // everything freed: the heap starts over
    assert_eq!(a.allocate(l, 0), 0x1000);
}

#[test]
fn bump_allocator_fails_with_null_when_full() {
    let mut a = BumpAllocator::new();
    a.init(0x1000, 0x1020);
    let l = Layout::from_size_align(0x20, 1).unwrap();
    assert_eq!(a.allocate(l, 0), 0);
}

#[test]
fn alignment_test() {
    let mut allocator = FixedLengthAllocator::<2048>::new();
    let align1 = 4;
    let size1 = 3;
    let ptr1 = allocator.allocate(Layout::from_size_align(size1, align1).unwrap(), 0);
    assert!(ptr1 % align1 == 0);

    let align2 = 64;
    let size2 = 1024;
    let ptr2 = allocator.allocate(Layout::from_size_align(size2, align2).unwrap(), 0);
    assert!(ptr2 > ptr1 + size1 - 1);
    assert!(ptr2 % 64 == 0);

    let align3 = 512;
    let size3 = 64;
    let ptr3 = allocator.allocate(Layout::from_size_align(size3, align3).unwrap(), 0);
    assert!(ptr3 > ptr2 + size2 - 1);
    assert!(ptr3 % align3 == 0);
}

#[test]
fn boundary_test() {
    let mut allocator = FixedLengthAllocator::<2048>::new();
    let boundary = 4;
    let alignment = 4;
    let size = 3;
    let ptr1 = allocator.allocate(Layout::from_size_align(size, alignment).unwrap(), boundary);
    assert!(ptr1 % alignment == 0);
    let prev_boundary = ptr1 - (ptr1 % boundary);
    assert!(prev_boundary <= ptr1 && ptr1 + size - 1 < prev_boundary + boundary);
    let boundary = 2048;
    let alignment = 64;
    let size = 1024;
    let ptr2 = allocator.allocate(Layout::from_size_align(size, alignment).unwrap(), boundary);
    assert!(ptr2 % alignment == 0);
    let prev_boundary = ptr2 - (ptr2 % boundary);
    assert!(prev_boundary <= ptr2 && ptr2 + size - 1 < prev_boundary + boundary);
    let boundary = 512;
    let alignment = 512;
    let size = 64;
    let ptr3 = allocator.allocate(Layout::from_size_align(size, alignment).unwrap(), boundary);
    assert!(ptr3 % alignment == 0);
    let prev_boundary = ptr3 - (ptr3 % boundary);
    assert!(prev_boundary <= ptr3 && ptr3 + size - 1 < prev_boundary + boundary);
}

#[test]
fn array_allocation_takes_len_times_size() {
    let mut a = BumpAllocator::new();
    a.init(0x1000, 0x2000);
    assert_eq!(alloc_array_with_boundary(&mut a, 4, 8, 0x40, 0), Ok(0x1000));
    // the next block starts after the 32 bytes just handed out
    assert_eq!(alloc_with_boundary(&mut a, 8, 8, 0), Ok(0x1020));
    // an alignment that is not a power of two is refused
    assert_eq!(alloc_with_boundary(&mut a, 8, 3, 0), Err(AllocationError));
    // more than the heap holds
    assert_eq!(alloc_array_with_boundary(&mut a, 0x100, 0x100, 8, 0), Err(AllocationError));
}

#[test]
fn alloc_array_test() {
    let mut allocator = FixedLengthAllocator::<4096>::new();
    let alignment = 64;
    let len = 100;
    let boundary = 1024;
    let start_ptr = alloc_array_with_boundary(&mut allocator, len, 8, alignment, boundary).unwrap();
    let end_ptr = start_ptr + len * 8;
    // check boundary
    let prev_boundary = start_ptr - (start_ptr % boundary);
    assert!(prev_boundary <= start_ptr && end_ptr - 1 < (prev_boundary + boundary));
    // check alignment
    assert!(start_ptr % alignment == 0);
    // check length
    assert_eq!((end_ptr - start_ptr) / 8, len);

    let alignment2 = 4;
    let len2 = 100;
    let boundary2 = 1024;
    let start_ptr2 = alloc_array_with_boundary(&mut allocator, len2, 8, alignment2, boundary2).unwrap();
    let end_ptr2 = start_ptr2 + len2 * 8;
    // check boundary
    let prev_boundary2 = start_ptr2 - (start_ptr2 % boundary2);
    assert!(prev_boundary2 <= start_ptr2 && end_ptr2 - 1 < (prev_boundary2 + boundary2));
    // check alignment
    assert!(start_ptr % alignment2 == 0);
    // check length
    assert_eq!((end_ptr2 - start_ptr2) / 8, len2);

    // check that the two arrays are not overlapping
    assert!(end_ptr <= start_ptr2);

    let alignment3 = 1024;
    let len3 = 1024;
    let boundary3 = 1024;
    let start_ptr3 = alloc_array_with_boundary(&mut allocator, len3, 1, alignment3, boundary3).unwrap();
    let end_ptr3 = start_ptr3 + len3; // this ptr is not included in the array

    // check boundary
    let prev_boundary3 = start_ptr3 - (start_ptr3 % boundary3);
    assert!(prev_boundary3 <= start_ptr3 && end_ptr3 - 1 < (prev_boundary3 + boundary3));
    // check alignment
    assert!(start_ptr3 % alignment3 == 0);
    // check length
    assert_eq!(end_ptr3 - start_ptr3, len3);
    // check that the two arrays are not overlapping
    assert!(end_ptr2 <= start_ptr3);
}

/// A small xorshift generator standing in for a random number source.
struct Rng(u64);

impl Rng {
    fn next(&mut self) -> u64 {
        let mut x = self.0;
        x ^= x << 13;
        x ^= x >> 7;
        x ^= x << 17;
        self.0 = x;
        x
    }

    fn gen_range(&mut self, lo: usize, hi: usize) -> usize {
        lo + (self.next() % (hi - lo) as u64) as usize
    }

    fn gen_bool(&mut self, p: f64) -> bool {
        (self.next() % 10_000) as f64 / 10_000.0 < p
    }
}

/// Allocates blocks of random alignment, size and boundary and checks each,
/// freeing it again.
fn alloc_huge_times_template<A: BoundaryAlloc>(allocator: &mut A, n_times: usize, upper_bound: usize) {
    let mut rng = Rng(0x9e37_79b9_7f4a_7c15);
    for _ in 0..n_times {
        let alignment: usize = rng.gen_range(1, upper_bound);
        // alignment must be power of 2
        let alignment = 2usize.pow(alignment.ilog2());
        let size = rng.gen_range(0, upper_bound);
        let mut boundary: usize;
        if rng.gen_bool(0.99) {
            boundary = rng.gen_range(size.max(1), upper_bound);
            // boundary must be power of 2
            boundary = 2usize.pow(boundary.ilog2());
            if boundary < size {
                boundary *= 2;
            }
        } else {
            boundary = 0;
        }
        let layout = Layout::from_size_align(size, alignment).unwrap();
        let ptr = allocator.allocate(layout, boundary);
        assert!(ptr != 0);
        assert!(ptr % alignment == 0);
        if boundary != 0 {
            // boundary check
            let prev_boundary = ptr - (ptr % boundary);
            assert!(
                prev_boundary <= ptr && ptr + size - 1 < prev_boundary + boundary,
                "alignment: {:x}, boundary: {:x}, size: {:x}",
                alignment,
                boundary,
                size
            );
        }
        allocator.dealloc(ptr, layout);
    }
}

#[test]
fn bump_allocator_alloc_huge_times() {
    const SIZE: usize = 100 * 1024;
    let heap = vec![0u8; SIZE];
    let mut allocator = BumpAllocator::new();
    allocator.init(heap.as_ptr() as usize, heap.as_ptr() as usize + SIZE);
    alloc_huge_times_template(&mut allocator, SIZE / 1024, 1000);
}

#[test]
fn bump_allocator_alloc_huge_times_with_value() {
    const SIZE: usize = 100 * 1024;
    let heap = vec![0u8; SIZE];
    let mut allocator = BumpAllocator::new();
    allocator.init(heap.as_ptr() as usize, heap.as_ptr() as usize + SIZE);
}

#[test]
fn fixed_length_allocator_alloc_huge_times() {
    const SIZE: usize = 100 * 1024;
    let mut allocator = FixedLengthAllocator::<SIZE>::new();
    alloc_huge_times_template(&mut allocator, SIZE / 1024, 1000);
}
