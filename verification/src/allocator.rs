use vstd::prelude::*;

verus! {

use vstd::arithmetic::power2::{pow2, lemma2_to64, lemma_pow2_unfold, lemma_pow2_pos, lemma_pow2_adds, lemma_pow2_strictly_increases};
use vstd::arithmetic::div_mod::{lemma_fundamental_div_mod, lemma_fundamental_div_mod_converse_div, lemma_mod_multiples_basic, lemma_mod_add_multiples_vanish};
use vstd::bits::{lemma_usize_pow2_no_overflow, lemma_usize_low_bits_mask_is_mod, low_bits_mask};

/// `n` is a power of two that fits in a `usize`.
pub open spec fn is_pow2(n: usize) -> bool {
    exists|k: nat| k < usize::BITS && n == pow2(k)
}

/// `value` rounded up to the next multiple of `alignment`, by the mask formula.
pub open spec fn ceil_spec(value: usize, alignment: usize) -> usize {
    ((value + alignment - 1) as usize) & !((alignment - 1) as usize)
}

/// Tells whether `n` is a power of two.
pub fn is_power_of_two(n: usize) -> (b: bool)
    ensures
        b == is_pow2(n),
{
    let mut k: u32 = 0;
    let mut p: usize = 1;
    proof {
        lemma2_to64();
    }
    while k < usize::BITS
        invariant
            k <= usize::BITS,
            k < usize::BITS ==> p == pow2(k as nat),
            forall|j: nat| j < k ==> pow2(j) != n,
        decreases usize::BITS - k,
    {
        if p == n {
            return true;
        }
        if k + 1 < usize::BITS {
            proof {
                lemma_usize_pow2_no_overflow((k + 1) as nat);
                lemma_pow2_unfold((k + 1) as nat);
            }
            p = p * 2;
        }
        k = k + 1;
    }
    false
}

/// Clearing the low bits below `a` subtracts exactly those bits.
pub proof fn lemma_clear_low(x: usize, a: usize)
    by (bit_vector)
    requires
        a != 0,
    ensures
        x & !((a - 1) as usize) == x - (x & ((a - 1) as usize)),
{
}

/// For a power-of-two alignment the mask formula gives the least multiple of
/// `alignment` that is not below `value`.
pub proof fn lemma_ceil_pow2(value: usize, alignment: usize)
    requires
        is_pow2(alignment),
        value + alignment - 1 <= usize::MAX,
    ensures
        ceil_spec(value, alignment) % alignment == 0,
        value <= ceil_spec(value, alignment),
        ceil_spec(value, alignment) < value + alignment,
{
    let a = alignment;
    let x = (value + alignment - 1) as usize;
    let k = choose|k: nat| k < usize::BITS && a == pow2(k);
    lemma_pow2_pos(k);
    lemma_usize_low_bits_mask_is_mod(x, k);
    assert(low_bits_mask(k) as usize == (a - 1) as usize);
    assert(x & ((a - 1) as usize) == x % a);
    lemma_clear_low(x, a);
    let r = ceil_spec(value, alignment);
    assert(r == x - x % a);
    lemma_fundamental_div_mod(x as int, a as int);
    lemma_mod_multiples_basic(x as int / a as int, a as int);
    assert(r as int == a * (x as int / a as int));
}

/// Rounds `value` up with the mask `!(alignment - 1)`.
pub fn ceil(value: usize, alignment: usize) -> (r: usize)
    requires
        alignment >= 1,
        value + alignment <= usize::MAX,
    ensures
        r == ceil_spec(value, alignment),
        is_pow2(alignment) ==> r % alignment == 0 && value <= r && r < value + alignment,
{
    proof {
        if is_pow2(alignment) {
            lemma_ceil_pow2(value, alignment);
        }
    }
    (value + alignment - 1) & !(alignment - 1)
}


/// A power of two is at least one.
pub proof fn lemma_pow2_at_least_one(n: usize)
    requires
        is_pow2(n),
    ensures
        n >= 1,
{
    let k = choose|k: nat| k < usize::BITS && n == pow2(k);
    lemma_pow2_pos(k);
}

/// If `m` is a multiple of `b` and `m - b <= x <= y < m`, then `x` and `y`
/// lie in the same `b`-sized block.
pub proof fn lemma_same_block(x: int, y: int, b: int, m: int)
    requires
        b > 0,
        m % b == 0,
        m - b <= x <= y < m,
    ensures
        x / b == y / b,
        x / b == m / b - 1,
{
    lemma_fundamental_div_mod(m, b);
    let k = m / b;
    assert(m == b * k);
    assert(x == (k - 1) * b + (x - (k - 1) * b)) by (nonlinear_arith);
    assert(0 <= x - (k - 1) * b < b) by (nonlinear_arith)
        requires m == b * k, m - b <= x, x < m;
    assert(0 <= y - (k - 1) * b < b) by (nonlinear_arith)
        requires m == b * k, m - b <= y, y < m;
    assert(y == (k - 1) * b + (y - (k - 1) * b)) by (nonlinear_arith);
    lemma_fundamental_div_mod_converse_div(x, b, k - 1, x - (k - 1) * b);
    lemma_fundamental_div_mod_converse_div(y, b, k - 1, y - (k - 1) * b);
}

/// A power of two divides every larger-or-equal power of two.
pub proof fn lemma_pow2_divides(small: usize, big: usize)
    requires
        is_pow2(small),
        is_pow2(big),
        small <= big,
    ensures
        big % small == 0,
{
    let i = choose|k: nat| k < usize::BITS && small == pow2(k);
    let j = choose|k: nat| k < usize::BITS && big == pow2(k);
    if j < i {
        lemma_pow2_strictly_increases(j, i);
    }
    lemma_pow2_adds(i, (j - i) as nat);
    lemma_pow2_pos(i);
    lemma_mod_multiples_basic(pow2((j - i) as nat) as int, pow2(i) as int);
    assert(pow2(j) == pow2((j - i) as nat) * pow2(i)) by (nonlinear_arith)
        requires pow2(j) == pow2(i) * pow2((j - i) as nat);
}

/// Multiples of a multiple of `a` are multiples of `a`.
pub proof fn lemma_mod_transitive(x: int, b: int, a: int)
    requires
        a > 0,
        b > 0,
        x % b == 0,
        b % a == 0,
    ensures
        x % a == 0,
{
    lemma_fundamental_div_mod(x, b);
    lemma_fundamental_div_mod(b, a);
    let q = x / b;
    let t = b / a;
    assert(x == a * (t * q)) by (nonlinear_arith)
        requires x == b * q, b == a * t;
    lemma_mod_multiples_basic(t * q, a);
    assert(x == (t * q) * a) by (nonlinear_arith) requires x == a * (t * q);
}

/// A memory layout: a size in bytes and a power-of-two alignment.
#[derive(Clone, Copy, Debug, PartialEq, Eq)]
pub struct Layout {
    size: usize,
    align: usize,
}

/// The reason a layout was refused.
#[derive(Clone, Copy, Debug, PartialEq, Eq)]
pub struct LayoutError;

impl Layout {
    /// The layout is well formed: its alignment is a power of two and its
    /// size, rounded up to the alignment, does not exceed `isize::MAX`.
    pub open spec fn valid(size: usize, align: usize) -> bool {
        &&& is_pow2(align)
        &&& size + align - 1 <= isize::MAX
    }

    pub closed spec fn spec_size(&self) -> usize {
        self.size
    }

    pub closed spec fn spec_align(&self) -> usize {
        self.align
    }

    #[verifier::type_invariant]
    closed spec fn inv(self) -> bool {
        Self::valid(self.size, self.align)
    }

    /// Builds a layout; refuses an alignment that is not a power of two and a
    /// size that overflows `isize` once rounded up.
    pub fn from_size_align(size: usize, align: usize) -> (r: Result<Layout, LayoutError>)
        ensures
            r is Ok <==> Self::valid(size, align),
            r matches Ok(l) ==> l.spec_size() == size && l.spec_align() == align,
    {
        if !is_power_of_two(align) {
            return Err(LayoutError);
        }
        proof {
            let k = choose|k: nat| k < usize::BITS && align == pow2(k);
            lemma_pow2_pos(k);
        }
        if align - 1 > isize::MAX as usize {
            return Err(LayoutError);
        }
        if size > (isize::MAX as usize) - (align - 1) {
            return Err(LayoutError);
        }
        Ok(Layout { size, align })
    }

    #[verifier::when_used_as_spec(spec_size)]
    pub fn size(&self) -> (r: usize)
        ensures
            r == self.spec_size(),
    {
        self.size
    }

    #[verifier::when_used_as_spec(spec_align)]
    pub fn align(&self) -> (r: usize)
        ensures
            r == self.spec_align(),
            is_pow2(r),
            self.spec_size() + r - 1 <= isize::MAX,
    {
        proof {
            use_type_invariant(self);
        }
        self.align
    }
}

/// Where `align_and_boundary_to` places a block of `size` bytes with the given
/// alignment and boundary, searching from `from_ptr`; `None` when the end of
/// the block does not fit in a `usize`.
pub open spec fn place_spec(from_ptr: usize, size: usize, align: usize, boundary: usize) -> Option<(usize, usize)> {
    let aligned = ceil_spec(from_ptr, align);
    if boundary > 0 && aligned + size > usize::MAX {
        None
    } else {
        let start = if boundary > 0 && ceil_spec(aligned, boundary) < aligned + size {
            ceil_spec(aligned, boundary)
        } else {
            aligned
        };
        if start + size > usize::MAX {
            None
        } else {
            Some((start, (start + size) as usize))
        }
    }
}

/// A multiple `c` of `a` in `[value, value + a)` is the least multiple of
/// `a` not below `value`.
pub proof fn lemma_least_multiple(value: int, a: int, c: int, m: int)
    requires
        a > 0,
        c % a == 0,
        value <= c < value + a,
        m % a == 0,
        value <= m,
    ensures
        c <= m,
{
    if m < c {
        lemma_fundamental_div_mod(c, a);
        lemma_fundamental_div_mod(m, a);
        let qc = c / a;
        let qm = m / a;
        assert(false) by (nonlinear_arith)
            requires
                c == a * qc,
                m == a * qm,
                0 < c - m < a,
                a > 0,
        ;
    }
}

/// A block of `size` bytes at `s` crosses a multiple of `boundary`: the
/// first multiple after `s` lies before its end.
pub open spec fn crosses_boundary(s: int, size: int, boundary: int) -> bool {
    boundary > 0 && (s / boundary + 1) * boundary < s + size
}

/// The block `[s, e)` is where a search from `from_ptr` should put `size`
/// bytes aligned to `align` without crossing a multiple of `boundary` (0: no
/// boundary): it is aligned, starts at or after `from_ptr`, holds `size`
/// bytes, lies inside one `boundary`-sized block, and every aligned address
/// that the search passed over would have crossed a multiple of `boundary`.
pub open spec fn placed_well(from_ptr: usize, size: usize, align: usize, boundary: usize, s: usize, e: usize) -> bool {
    &&& s % align == 0
    &&& from_ptr <= s
    &&& e == s + size
    &&& (boundary > 0 && size > 0) ==> s as int / boundary as int == (e - 1) / boundary as int
    &&& forall|t: int| from_ptr <= t < s && t % align as int == 0 ==> #[trigger] crosses_boundary(t, size as int, boundary as int)
}

/// What a placement needs of a plain size and alignment (see
/// `place_requires`).
pub open spec fn place_ok(from_ptr: usize, size: usize, align: usize, boundary: usize) -> bool {
    &&& is_pow2(align)
    &&& boundary == 0 || is_pow2(boundary)
    &&& boundary == 0 || size <= boundary
    &&& from_ptr + align <= usize::MAX
    &&& boundary > 0 ==> ceil_spec(from_ptr, align) + boundary <= usize::MAX
}

/// Every placement that `place_spec` makes is placed well: aligned, at or
/// after the start of the search, `size` bytes long, inside one
/// `boundary`-sized block, and the first such address.
pub proof fn lemma_place_spec(from_ptr: usize, size: usize, align: usize, boundary: usize)
    requires
        place_ok(from_ptr, size, align, boundary),
    ensures
        place_spec(from_ptr, size, align, boundary) matches Some((s, e)) ==> placed_well(from_ptr, size, align, boundary, s, e),
{
    lemma_pow2_at_least_one(align);
    if boundary > 0 {
        lemma_pow2_at_least_one(boundary);
    }
    let aligned = ceil_spec(from_ptr, align);
    lemma_ceil_pow2(from_ptr, align);
    assert forall|t: int| from_ptr <= t < aligned && t % align as int == 0 implies #[trigger] crosses_boundary(
        t,
        size as int,
        boundary as int,
    ) by {
        lemma_least_multiple(from_ptr as int, align as int, aligned as int, t);
    }
    if boundary > 0 && aligned + size <= usize::MAX {
        let next_boundary = ceil_spec(aligned, boundary);
        lemma_ceil_pow2(aligned, boundary);
        if next_boundary < aligned + size {
            assert forall|t: int|
                aligned <= t < next_boundary implies #[trigger] crosses_boundary(t, size as int, boundary as int) by {
                let b = boundary as int;
                lemma_fundamental_div_mod(t, b);
                let nm = (t / b + 1) * b;
                assert(nm % b == 0 && t < nm <= t + b) by {
                    lemma_mod_multiples_basic(t / b + 1, b);
                    assert(nm == t - t % b + b) by (nonlinear_arith)
                        requires nm == (t / b + 1) * b, t == b * (t / b) + t % b;
                }
                lemma_least_multiple(t + 1, b, nm, next_boundary as int);
            }
            if align <= boundary {
                lemma_pow2_divides(align, boundary);
                lemma_mod_transitive(next_boundary as int, boundary as int, align as int);
            } else {
                lemma_pow2_divides(boundary, align);
                lemma_mod_transitive(aligned as int, align as int, boundary as int);
                lemma_mod_add_multiples_vanish(aligned as int, boundary as int);
                lemma_same_block(aligned as int, next_boundary as int, boundary as int, aligned + boundary);
                lemma_fundamental_div_mod(aligned as int, boundary as int);
                lemma_fundamental_div_mod(next_boundary as int, boundary as int);
            }
            if size > 0 {
                lemma_mod_add_multiples_vanish(next_boundary as int, boundary as int);
                lemma_same_block(next_boundary as int, next_boundary + size - 1, boundary as int, next_boundary + boundary);
            }
        } else {
            if size > 0 {
                lemma_same_block(aligned as int, aligned + size - 1, boundary as int, next_boundary as int);
            }
        }
    }
}

/// Finds the first address at or after `from_ptr` that is aligned to
/// `layout.align()` and, when `boundary` is non-zero, from which `layout.size()`
/// bytes do not cross a multiple of `boundary`. The result is the address
/// range of the block; `Err` when its end would overflow.
pub fn align_and_boundary_to(from_ptr: usize, layout: Layout, boundary: usize) -> (r: Result<core::ops::Range<usize>, ()>)
    requires
        boundary == 0 || is_pow2(boundary),
        boundary == 0 || layout.spec_size() <= boundary,
        from_ptr + layout.spec_align() <= usize::MAX,
        boundary > 0 ==> ceil_spec(from_ptr, layout.spec_align()) + boundary <= usize::MAX,
    ensures
        match place_spec(from_ptr, layout.spec_size(), layout.spec_align(), boundary) {
            None => r is Err,
            Some((s, e)) => r matches Ok(range) && range.start == s && range.end == e,
        },
        r matches Ok(range) ==> placed_well(from_ptr, layout.spec_size(), layout.spec_align(), boundary, range.start, range.end),
{
    let size = layout.size();
    let align = layout.align();
    proof {
        lemma_pow2_at_least_one(align);
        if boundary > 0 {
            lemma_pow2_at_least_one(boundary);
        }
        lemma_place_spec(from_ptr, size, align, boundary);
    }
    let mut alloc_ptr = ceil(from_ptr, align);
    if boundary > 0 {
        let next_boundary = ceil(alloc_ptr, boundary);
        let end = match alloc_ptr.checked_add(size) {
            Some(e) => e,
            None => return Err(()),
        };
        if next_boundary < end {
            alloc_ptr = next_boundary;
        }
    }
    let end_ptr = match alloc_ptr.checked_add(size) {
        Some(e) => e,
        None => return Err(()),
    };
    Ok(alloc_ptr..end_ptr)
}

} // verus!

verus! {

/// A placement starts at or after the address the search starts from.
proof fn lemma_place_after(from_ptr: usize, size: usize, align: usize, boundary: usize)
    requires
        is_pow2(align),
        boundary == 0 || is_pow2(boundary),
        from_ptr + align <= usize::MAX,
        boundary > 0 ==> ceil_spec(from_ptr, align) + boundary <= usize::MAX,
    ensures
        place_spec(from_ptr, size, align, boundary) matches Some((s, e)) ==> from_ptr <= s && e == s
            + size,
{
    lemma_ceil_pow2(from_ptr, align);
    if boundary > 0 {
        lemma_ceil_pow2(ceil_spec(from_ptr, align), boundary);
    }
}

/// Blocks placed one after the other, each search starting where the block
/// before ended (as the bump and fixed-length allocators do), follow each
/// other in memory: the second starts at or after the end of the first, so
/// the two never overlap.
pub proof fn lemma_successive_blocks_disjoint(
    from_ptr: usize,
    first: Layout,
    first_boundary: usize,
    second: Layout,
    second_boundary: usize,
)
    requires
        Layout::valid(first.spec_size(), first.spec_align()),
        Layout::valid(second.spec_size(), second.spec_align()),
        place_requires(from_ptr, first, first_boundary),
        place_spec(from_ptr, first.spec_size(), first.spec_align(), first_boundary) matches Some((s1, e1))
            && place_requires(e1, second, second_boundary),
    ensures
        place_spec(from_ptr, first.spec_size(), first.spec_align(), first_boundary) matches Some((s1, e1))
            && (place_spec(e1, second.spec_size(), second.spec_align(), second_boundary) matches Some((s2, e2))
            ==> from_ptr <= s1 && e1 == s1 + first.spec_size() && e1 <= s2 && e2 == s2 + second.spec_size()),
{
    lemma_place_after(from_ptr, first.spec_size(), first.spec_align(), first_boundary);
    let (s1, e1) = place_spec(from_ptr, first.spec_size(), first.spec_align(), first_boundary)->0;
    lemma_place_after(e1, second.spec_size(), second.spec_align(), second_boundary);
}

/// The allocation could not be made.
#[derive(Debug, Clone, Copy, PartialEq, Eq)]
pub struct AllocationError;

/// An allocator that can place a block so that it does not cross a
/// power-of-two boundary. An address of 0 stands for a failed allocation.
pub trait BoundaryAlloc: Sized {
    /// The inputs on which `allocate` is defined for this allocator.
    spec fn alloc_requires(&self, layout: Layout, boundary: usize) -> bool;

    /// The inputs on which `dealloc` is defined for this allocator.
    spec fn dealloc_requires(&self, ptr: usize, layout: Layout) -> bool;

    /// The address that `allocate` gives for a block of `size` bytes aligned
    /// to `align`; 0 when the allocation fails.
    spec fn allocated(&self, size: usize, align: usize, boundary: usize) -> usize;

    /// `after` is what that allocation leaves of the allocator.
    spec fn allocation_leaves(&self, after: Self, size: usize, align: usize, boundary: usize) -> bool;

    fn allocate(&mut self, layout: Layout, boundary: usize) -> (ptr: usize)
        requires
            old(self).alloc_requires(layout, boundary),
        ensures
            ptr == old(self).allocated(layout.spec_size(), layout.spec_align(), boundary),
            old(self).allocation_leaves(*final(self), layout.spec_size(), layout.spec_align(), boundary),
    ;

    fn dealloc(&mut self, ptr: usize, layout: Layout)
        requires
            old(self).dealloc_requires(ptr, layout),
    ;
}

/// Allocates room for `len` values of `elem_size` bytes each, aligned to
/// `alignment`, that does not cross a multiple of `boundary` (0: no
/// boundary), and returns its address. A layout that `Layout` refuses and an
/// allocation that fails (address 0) are reported as `AllocationError`.
pub fn alloc_array_with_boundary<A: BoundaryAlloc>(
    allocator: &mut A,
    len: usize,
    elem_size: usize,
    alignment: usize,
    boundary: usize,
) -> (r: Result<usize, AllocationError>)
    requires
        len * elem_size <= usize::MAX,
        forall|l: Layout|
            l.spec_size() == len * elem_size && l.spec_align() == alignment
                ==> #[trigger] old(allocator).alloc_requires(l, boundary),
    ensures
        ({
            let size = (len * elem_size) as usize;
            let p = old(allocator).allocated(size, alignment, boundary);
            &&& r == if Layout::valid(size, alignment) && p != 0 {
                Ok::<usize, AllocationError>(p)
            } else {
                Err(AllocationError)
            }
            &&& if Layout::valid(size, alignment) {
                old(allocator).allocation_leaves(*final(allocator), size, alignment, boundary)
            } else {
                *final(allocator) == *old(allocator)
            }
        }),
{
    let size = len * elem_size;
    let layout = match Layout::from_size_align(size, alignment) {
        Ok(l) => l,
        Err(_) => return Err(AllocationError),
    };
    let ptr = allocator.allocate(layout, boundary);
    if ptr == 0 {
        return Err(AllocationError);
    }
    Ok(ptr)
}

/// Allocates room for one value of `size` bytes: `alloc_array_with_boundary`
/// with one element.
pub fn alloc_with_boundary<A: BoundaryAlloc>(
    allocator: &mut A,
    size: usize,
    alignment: usize,
    boundary: usize,
) -> (r: Result<usize, AllocationError>)
    requires
        forall|l: Layout|
            l.spec_size() == size && l.spec_align() == alignment
                ==> #[trigger] old(allocator).alloc_requires(l, boundary),
    ensures
        ({
            let p = old(allocator).allocated(size, alignment, boundary);
            &&& r == if Layout::valid(size, alignment) && p != 0 {
                Ok::<usize, AllocationError>(p)
            } else {
                Err(AllocationError)
            }
            &&& if Layout::valid(size, alignment) {
                old(allocator).allocation_leaves(*final(allocator), size, alignment, boundary)
            } else {
                *final(allocator) == *old(allocator)
            }
        }),
{
    alloc_array_with_boundary(allocator, 1, size, alignment, boundary)
}

/// What `align_and_boundary_to` needs of its inputs.
pub open spec fn place_requires(from_ptr: usize, layout: Layout, boundary: usize) -> bool {
    &&& boundary == 0 || is_pow2(boundary)
    &&& boundary == 0 || layout.spec_size() <= boundary
    &&& from_ptr + layout.spec_align() <= usize::MAX
    &&& boundary > 0 ==> ceil_spec(from_ptr, layout.spec_align()) + boundary <= usize::MAX
}

/// A bump allocator over `[heap_start, heap_end)`: every allocation takes the
/// next free address; the heap is reclaimed when the last live allocation is
/// freed.
pub struct BumpAllocator {
    heap_start: usize,
    heap_end: usize,
    next: usize,
    n_allocations: usize,
}

impl BumpAllocator {
    pub closed spec fn spec_heap_start(&self) -> usize {
        self.heap_start
    }

    pub closed spec fn spec_heap_end(&self) -> usize {
        self.heap_end
    }

    /// The first address that the next allocation may use.
    pub closed spec fn spec_next(&self) -> usize {
        self.next
    }

    /// The number of allocations not yet freed.
    pub closed spec fn spec_n_allocations(&self) -> usize {
        self.n_allocations
    }

    /// An allocator over an empty heap.
    pub fn new() -> (r: Self)
        ensures
            r.spec_heap_start() == 0,
            r.spec_heap_end() == 0,
            r.spec_next() == 0,
            r.spec_n_allocations() == 0,
    {
        Self { heap_start: 0, heap_end: 0, next: 0, n_allocations: 0 }
    }

    /// The first address that the next allocation may use.
    pub fn next_free(&self) -> (r: usize)
        ensures
            r == self.spec_next(),
    {
        self.next
    }

    /// The number of allocations not yet freed.
    pub fn live_allocations(&self) -> (r: usize)
        ensures
            r == self.spec_n_allocations(),
    {
        self.n_allocations
    }

    /// Hands the allocator the heap `[heap_start, heap_end)`.
    pub fn init(&mut self, heap_start: usize, heap_end: usize)
        ensures
            final(self).spec_heap_start() == heap_start,
            final(self).spec_heap_end() == heap_end,
            final(self).spec_next() == heap_start,
            final(self).spec_n_allocations() == old(self).spec_n_allocations(),
    {
        self.heap_start = heap_start;
        self.heap_end = heap_end;
        self.next = heap_start;
    }
}

/// `after` is what freeing one allocation leaves of `before`: one allocation
/// fewer, and the next free address back at the heap start when that was the
/// last one, else unchanged.
pub open spec fn bump_dealloc_leaves(before: BumpAllocator, after: BumpAllocator) -> bool {
    &&& after.spec_n_allocations() == before.spec_n_allocations() - 1
    &&& after.spec_next() == if before.spec_n_allocations() == 1 {
        before.spec_heap_start()
    } else {
        before.spec_next()
    }
    &&& after.spec_heap_start() == before.spec_heap_start()
    &&& after.spec_heap_end() == before.spec_heap_end()
}

/// Freeing the live allocations of a bump allocator one by one (`states[0]`
/// with as many live allocations as frees follow, each state what freeing one
/// allocation leaves of the one before) reuses no address while any is still
/// live: the next free address stays where it was until the last is freed.
/// Then the whole heap is free again: the next free address is the heap
/// start, so the next allocation is placed as the first one from a fresh
/// heap was.
pub proof fn lemma_bump_release_all(states: Seq<BumpAllocator>)
    requires
        states.len() >= 2,
        states[0].spec_n_allocations() == states.len() - 1,
        forall|i: int| 0 <= i < states.len() - 1 ==> #[trigger] bump_dealloc_leaves(states[i], states[i + 1]),
    ensures
        forall|i: int| 0 <= i < states.len() - 1 ==> #[trigger] states[i].spec_next() == states[0].spec_next(),
        states.last().spec_next() == states[0].spec_heap_start(),
        states.last().spec_n_allocations() == 0,
        states.last().spec_heap_start() == states[0].spec_heap_start(),
        states.last().spec_heap_end() == states[0].spec_heap_end(),
{
    assert forall|i: int| 0 <= i < states.len() - 1 implies #[trigger] states[i].spec_next() == states[0].spec_next() by {
        lemma_bump_release_prefix(states, i);
    }
    let k = states.len() - 1;
    lemma_bump_release_prefix(states, k);
    assert(bump_dealloc_leaves(states[k - 1], states[k - 1 + 1]));
    assert(states[k - 1 + 1] == states.last());
}

proof fn lemma_bump_release_prefix(states: Seq<BumpAllocator>, k: int)
    requires
        states.len() >= 2,
        states[0].spec_n_allocations() == states.len() - 1,
        forall|i: int| 0 <= i < states.len() - 1 ==> #[trigger] bump_dealloc_leaves(states[i], states[i + 1]),
        0 <= k < states.len(),
    ensures
        states[k].spec_n_allocations() == states[0].spec_n_allocations() - k,
        states[k].spec_heap_start() == states[0].spec_heap_start(),
        states[k].spec_heap_end() == states[0].spec_heap_end(),
        k < states.len() - 1 ==> states[k].spec_next() == states[0].spec_next(),
    decreases k,
{
    if k > 0 {
        lemma_bump_release_prefix(states, k - 1);
        assert(bump_dealloc_leaves(states[k - 1], states[k - 1 + 1]));
        assert(states[k - 1 + 1] == states[k]);
    }
}

/// A block that the bump allocator gives lies inside its heap, at or after
/// its next free address, and the next free address moves to the block's
/// end.
pub proof fn lemma_bump_block_in_heap(a: BumpAllocator, after: BumpAllocator, layout: Layout, boundary: usize)
    requires
        Layout::valid(layout.spec_size(), layout.spec_align()),
        a.alloc_requires(layout, boundary),
        a.spec_heap_start() <= a.spec_next(),
        a.allocation_leaves(after, layout.spec_size(), layout.spec_align(), boundary),
    ensures
        a.allocated(layout.spec_size(), layout.spec_align(), boundary) != 0 ==> {
            let s = a.allocated(layout.spec_size(), layout.spec_align(), boundary);
            &&& a.spec_heap_start() <= a.spec_next() <= s
            &&& s + layout.spec_size() < a.spec_heap_end()
            &&& after.spec_next() == s + layout.spec_size()
            &&& after.spec_n_allocations() == a.spec_n_allocations() + 1
        },
        a.allocated(layout.spec_size(), layout.spec_align(), boundary) == 0 && a.spec_next() > 0 ==> after == a,
{
    lemma_place_after(a.spec_next(), layout.spec_size(), layout.spec_align(), boundary);
}

impl BoundaryAlloc for BumpAllocator {
    open spec fn alloc_requires(&self, layout: Layout, boundary: usize) -> bool {
        &&& place_requires(self.spec_next(), layout, boundary)
        &&& self.spec_n_allocations() < usize::MAX
    }

    open spec fn dealloc_requires(&self, ptr: usize, layout: Layout) -> bool {
        self.spec_n_allocations() > 0
    }

    /// The first fitting address from `next`, when the block ends below the
    /// heap end.
    open spec fn allocated(&self, size: usize, align: usize, boundary: usize) -> usize {
        match place_spec(self.spec_next(), size, align, boundary) {
            Some((s, e)) => if e < self.spec_heap_end() {
                s
            } else {
                0
            },
            None => 0,
        }
    }

    /// `next` moves to the end of the block and one more allocation is live;
    /// a failed allocation changes nothing.
    open spec fn allocation_leaves(&self, after: Self, size: usize, align: usize, boundary: usize) -> bool {
        match place_spec(self.spec_next(), size, align, boundary) {
            Some((s, e)) => if e < self.spec_heap_end() {
                &&& after.spec_next() == e
                &&& after.spec_n_allocations() == self.spec_n_allocations() + 1
                &&& after.spec_heap_start() == self.spec_heap_start()
                &&& after.spec_heap_end() == self.spec_heap_end()
            } else {
                after == *self
            },
            None => after == *self,
        }
    }

    /// Places the block at the first fitting address from `next`; fails (0)
    /// when the placement overflows or the block does not end below the heap
    /// end.
    fn allocate(&mut self, layout: Layout, boundary: usize) -> (ptr: usize)
        ensures
            match place_spec(old(self).spec_next(), layout.spec_size(), layout.spec_align(), boundary) {
                Some((s, e)) if e < old(self).spec_heap_end() => {
                    &&& ptr == s
                    &&& final(self).spec_next() == e
                    &&& final(self).spec_n_allocations() == old(self).spec_n_allocations() + 1
                    &&& final(self).spec_heap_start() == old(self).spec_heap_start()
                    &&& final(self).spec_heap_end() == old(self).spec_heap_end()
                },
                _ => ptr == 0 && *final(self) == *old(self),
            },
    {
        let range = match align_and_boundary_to(self.next, layout, boundary) {
            Ok(r) => r,
            Err(()) => return 0,
        };
        if range.end >= self.heap_end {
            return 0;
        }
        self.next = range.end;
        self.n_allocations = self.n_allocations + 1;
        range.start
    }

    /// Forgets one allocation; when none is left the whole heap is free again.
    fn dealloc(&mut self, ptr: usize, layout: Layout)
        ensures
            bump_dealloc_leaves(*old(self), *final(self)),
    {
        self.n_allocations = self.n_allocations - 1;
        if self.n_allocations == 0 {
            self.next = self.heap_start;
        }
    }
}

} // verus!

verus! {

/// The address of the first byte of `heap`'s buffer (`Vec::as_ptr`). Nothing
/// is claimed of the address itself, which the machine decides; only that the
/// buffer does not wrap around the address space, which std documents of every
/// allocated object.
#[verifier::external_body]
fn buffer_address(heap: &Vec<u8>) -> (addr: usize)
    ensures
        addr + heap.len() <= usize::MAX,
{
    heap.as_ptr() as usize
}

/// A fixed heap of `SIZE` bytes handed out front to back and never reused.
pub struct FixedLengthAllocatorInner<const SIZE: usize> {
    heap: Vec<u8>,
    base: usize,
    /// index in `0..=SIZE` of the next available byte
    next: usize,
}

impl<const SIZE: usize> FixedLengthAllocatorInner<SIZE> {
    #[verifier::type_invariant]
    closed spec fn inv(self) -> bool {
        &&& self.heap.len() == SIZE
        &&& self.base + SIZE <= usize::MAX
        &&& self.next <= SIZE
    }

    /// The address of the first heap byte.
    pub closed spec fn spec_base(&self) -> usize {
        self.base
    }

    /// The index of the next free heap byte.
    pub closed spec fn spec_next(&self) -> usize {
        self.next
    }

    /// A zeroed heap with nothing allocated.
    pub fn new() -> (r: Self)
        ensures
            r.spec_next() == 0,
            r.spec_base() + SIZE <= usize::MAX,
    {
        let mut heap: Vec<u8> = Vec::new();
        let mut i: usize = 0;
        while i < SIZE
            invariant
                i <= SIZE,
                heap.len() == i,
                forall|j: int| 0 <= j < i ==> heap@[j] == 0u8,
            decreases SIZE - i,
        {
            heap.push(0);
            i = i + 1;
        }
        let base = buffer_address(&heap);
        Self { heap, base, next: 0 }
    }

    /// The addresses of the heap: `[base, base + SIZE)`.
    pub fn heap_range(&self) -> (r: core::ops::Range<usize>)
        ensures
            r.start == self.spec_base(),
            r.end == self.spec_base() + SIZE,
    {
        self.base..self.heap_end()
    }

    /// The end of the heap, which is not part of it.
    pub fn heap_end(&self) -> (r: usize)
        ensures
            r == self.spec_base() + SIZE,
    {
        proof {
            use_type_invariant(self);
        }
        self.base + SIZE
    }
}

/// A fixed-length allocator; it never frees.
pub struct FixedLengthAllocator<const SIZE: usize>(pub FixedLengthAllocatorInner<SIZE>);

impl<const SIZE: usize> FixedLengthAllocator<SIZE> {
    pub fn new() -> (r: Self)
        ensures
            r.0.spec_next() == 0,
    {
        Self(FixedLengthAllocatorInner::new())
    }
}

/// An allocation from a fixed-length allocator is placed well (see
/// `placed_well`) from the end of the allocation before it (the heap start for
/// the first): aligned, at or after that end, inside one `boundary`-sized
/// block, at the first such address; it ends inside the heap, and the next
/// allocation searches from its end, so no two allocations overlap.
pub proof fn lemma_fixed_length_allocation<const SIZE: usize>(
    a: FixedLengthAllocator<SIZE>,
    after: FixedLengthAllocator<SIZE>,
    layout: Layout,
    boundary: usize,
)
    requires
        Layout::valid(layout.spec_size(), layout.spec_align()),
        a.alloc_requires(layout, boundary),
        a.allocation_leaves(after, layout.spec_size(), layout.spec_align(), boundary),
    ensures
        ({
            let from = (a.0.spec_base() + a.0.spec_next()) as usize;
            let size = layout.spec_size();
            let p = a.allocated(size, layout.spec_align(), boundary);
            &&& placed_well(from, size, layout.spec_align(), boundary, p, (p + size) as usize)
            &&& p + size < a.0.spec_base() + SIZE
            &&& after.0.spec_base() + after.0.spec_next() == p + size
            &&& after.0.spec_base() == a.0.spec_base()
        }),
{
    let from = (a.0.spec_base() + a.0.spec_next()) as usize;
    lemma_place_spec(from, layout.spec_size(), layout.spec_align(), boundary);
}

impl<const SIZE: usize> BoundaryAlloc for FixedLengthAllocator<SIZE> {
    /// The placement from the next free byte succeeds and ends inside the
    /// heap; on other inputs the allocator panics.
    open spec fn alloc_requires(&self, layout: Layout, boundary: usize) -> bool {
        let from = (self.0.spec_base() + self.0.spec_next()) as usize;
        &&& place_requires(from, layout, boundary)
        &&& place_spec(from, layout.spec_size(), layout.spec_align(), boundary) matches Some((s, e))
            && e < self.0.spec_base() + SIZE
    }

    open spec fn dealloc_requires(&self, ptr: usize, layout: Layout) -> bool {
        true
    }

    /// The first fitting address from the next free byte.
    open spec fn allocated(&self, size: usize, align: usize, boundary: usize) -> usize {
        match place_spec((self.0.spec_base() + self.0.spec_next()) as usize, size, align, boundary) {
            Some((s, e)) => s,
            None => 0,
        }
    }

    /// The next free byte moves to the end of the block.
    open spec fn allocation_leaves(&self, after: Self, size: usize, align: usize, boundary: usize) -> bool {
        match place_spec((self.0.spec_base() + self.0.spec_next()) as usize, size, align, boundary) {
            Some((s, e)) => {
                &&& after.0.spec_next() == e - self.0.spec_base()
                &&& after.0.spec_base() == self.0.spec_base()
            },
            None => after == *self,
        }
    }

    /// Places the block at the first fitting address from the next free byte.
    fn allocate(&mut self, layout: Layout, boundary: usize) -> (ptr: usize)
        ensures
            place_spec((old(self).0.spec_base() + old(self).0.spec_next()) as usize, layout.spec_size(),
                layout.spec_align(), boundary) matches Some((s, e)) && {
                &&& ptr == s
                &&& final(self).0.spec_next() == e - old(self).0.spec_base()
                &&& final(self).0.spec_base() == old(self).0.spec_base()
            },
    {
        proof {
            use_type_invariant(&self.0);
        }
        let start = self.0.next;
        let current = self.0.base + start;
        let range = match align_and_boundary_to(current, layout, boundary) {
            Ok(r) => r,
            Err(()) => return 0,
        };
        let heap_start = self.0.heap_range().start;
        self.0.next = range.end - heap_start;
        range.start
    }

    /// Freeing does nothing.
    fn dealloc(&mut self, ptr: usize, layout: Layout)
        ensures
            *final(self) == *old(self),
    {
    }
}

} // verus!
