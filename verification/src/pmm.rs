//! Physical memory bump allocator.
//!
//! One contiguous region `[next_free, limit)` serves every permanent kernel
//! structure. Allocation rounds the requested size up to at least a page,
//! aligns the cursor, and moves it forward; nothing is ever freed.

use vstd::prelude::*;

use crate::bootinfo::{BootInfo, MemoryMapEntry};
use vstd::arithmetic::div_mod::{
    lemma_fundamental_div_mod, lemma_mod_division_less_than_divisor, lemma_mod_decreases,
    lemma_mod_multiples_basic,
};

verus! {

pub const PAGE_SIZE: u64 = 4096;

/// The allocator's whole state: a cursor and an upper limit.
pub struct PhysAllocator {
    pub next_free: u64,
    pub limit: u64,
}

/// An alignment is usable when it is a nonzero power of two,
/// which is exactly what the bit test in the code checks.
pub open spec fn is_pow2(a: u64) -> bool {
    a != 0 && (a & (a - 1) as u64) == 0u64
}

/// Smallest multiple of `align` that is at least `value`.
pub open spec fn spec_align_up(value: u64, align: u64) -> int {
    if value % align == 0 {
        value as int
    } else {
        value + (align - value % align)
    }
}

/// Largest multiple of `align` that is at most `value`.
pub open spec fn spec_align_down(value: u64, align: u64) -> int {
    value - value % align
}

/// What one allocation does to the cursor: `None` when the alignment is
/// unusable or the rounded request does not fit, otherwise the aligned
/// address together with the new cursor.
pub open spec fn spec_alloc(
    next_free: u64,
    limit: u64,
    size: u64,
    align: u64,
) -> Option<(int, int)> {
    if !is_pow2(align) {
        None
    } else if next_free == 0 || next_free >= limit {
        None
    } else {
        let adj_size = spec_align_up(size, if align > PAGE_SIZE { align } else { PAGE_SIZE });
        let aligned = spec_align_up(next_free, align);
        if aligned + adj_size > limit {
            None
        } else {
            Some((aligned, aligned + adj_size))
        }
    }
}

/// Rounding up to an alignment lands on a multiple of it, at most one
/// whole alignment away.
pub proof fn lemma_align_up_properties(value: u64, align: u64)
    requires
        align > 0,
    ensures
        spec_align_up(value, align) % (align as int) == 0,
        value <= spec_align_up(value, align) < value + align,
{
    let v = value as int;
    let a = align as int;
    lemma_fundamental_div_mod(v, a);
    lemma_mod_division_less_than_divisor(v, a);
    let q = v / a;
    assert(v == a * q + v % a);
    if value % align == 0 {
        assert(v == q * a) by {
            assert(a * q == q * a) by (nonlinear_arith);
        }
        lemma_mod_multiples_basic(q, a);
    } else {
        assert(spec_align_up(value, align) == v + (a - v % a));
        assert(v + (a - v % a) == (q + 1) * a) by {
            assert(v == a * q + v % a);
            assert(a * q + a == (q + 1) * a) by (nonlinear_arith);
        }
        lemma_mod_multiples_basic(q + 1, a);
    }
}

/// Rounding down lands on a multiple of the alignment, less than one
/// whole alignment below.
pub proof fn lemma_align_down_properties(value: u64, align: u64)
    requires
        align > 0,
    ensures
        spec_align_down(value, align) % (align as int) == 0,
        value - align < spec_align_down(value, align) <= value,
        0 <= spec_align_down(value, align),
{
    let v = value as int;
    let a = align as int;
    lemma_fundamental_div_mod(v, a);
    lemma_mod_division_less_than_divisor(v, a);
    lemma_mod_decreases(value as nat, align as nat);
    let q = v / a;
    assert(spec_align_down(value, align) == q * a) by {
        assert(v == a * q + v % a);
        assert(a * q == q * a) by (nonlinear_arith);
    }
    lemma_mod_multiples_basic(q, a);
}

pub fn align_up(value: u64, align: u64) -> (r: u64)
    requires
        align > 0,
        spec_align_up(value, align) <= u64::MAX,
    ensures
        r == spec_align_up(value, align),
        r % align == 0,
        value <= r < value + align,
{
    proof {
        lemma_align_up_properties(value, align);
    }
    let rem: u64 = value % align;
    if rem == 0 {
        value
    } else {
        value + (align - rem)
    }
}

pub fn align_down(value: u64, align: u64) -> (r: u64)
    requires
        align > 0,
    ensures
        r == spec_align_down(value, align),
        r % align == 0,
        value - align < r <= value,
{
    proof {
        lemma_align_down_properties(value, align);
    }
    value - value % align
}

/// `align_up` that reports when the rounded value would not fit in an
/// address at all.
fn try_align_up(value: u64, align: u64) -> (r: Option<u64>)
    requires
        align > 0,
    ensures
        match r {
            Some(v) => v == spec_align_up(value, align),
            None => spec_align_up(value, align) > u64::MAX,
        },
{
    proof {
        lemma_align_up_properties(value, align);
    }
    let rem: u64 = value % align;
    if rem == 0 {
        Some(value)
    } else {
        let pad: u64 = align - rem;
        if value > u64::MAX - pad {
            None
        } else {
            Some(value + pad)
        }
    }
}

impl PhysAllocator {
    /// An allocator that owns nothing and refuses every request.
    pub fn empty() -> (r: PhysAllocator)
        ensures
            r.next_free == 0,
            r.limit == 0,
    {
        PhysAllocator { next_free: 0, limit: 0 }
    }
}

/// Aligned bump allocation. Returns the aligned address, or `None` when the
/// alignment is not a nonzero power of two or the rounded-up request does
/// not fit below the limit. The cursor only ever moves forward.
pub fn alloc_aligned(a: &mut PhysAllocator, size: u64, align: u64) -> (r: Option<u64>)
    ensures
        final(a).limit == old(a).limit,
        match r {
            Some(addr) => {
                &&& Some((addr as int, final(a).next_free as int))
                    == spec_alloc(old(a).next_free, old(a).limit, size, align)
                &&& addr % align == 0
                &&& old(a).next_free <= addr
                &&& addr + size <= final(a).next_free <= final(a).limit
            },
            None => {
                &&& spec_alloc(old(a).next_free, old(a).limit, size, align) is None
                &&& final(a).next_free == old(a).next_free
            },
        },
{
    if align == 0 || align & (align - 1) != 0 {
        return None;
    }
    let current: u64 = a.next_free;
    let limit: u64 = a.limit;
    if current == 0 || current >= limit {
        return None;
    }
    let granule: u64 = if align > PAGE_SIZE { align } else { PAGE_SIZE };
    proof {
        lemma_align_up_properties(current, align);
        lemma_align_up_properties(size, granule);
    }
    let aligned: u64 = match try_align_up(current, align) {
        Some(v) => v,
        None => {
            return None;
        },
    };
    let adj_size: u64 = match try_align_up(size, granule) {
        Some(v) => v,
        None => {
            return None;
        },
    };
    if aligned > u64::MAX - adj_size {
        return None;
    }
    let end: u64 = aligned + adj_size;
    if end > limit {
        return None;
    }
    a.next_free = end;
    Some(aligned)
}

/// One page, page-aligned.
pub fn alloc_page(a: &mut PhysAllocator) -> (r: Option<u64>)
    ensures
        final(a).limit == old(a).limit,
        match r {
            Some(addr) => {
                &&& Some((addr as int, final(a).next_free as int))
                    == spec_alloc(old(a).next_free, old(a).limit, PAGE_SIZE, PAGE_SIZE)
                &&& addr % PAGE_SIZE == 0
                &&& old(a).next_free <= addr
                &&& addr + PAGE_SIZE <= final(a).next_free <= final(a).limit
            },
            None => {
                &&& spec_alloc(old(a).next_free, old(a).limit, PAGE_SIZE, PAGE_SIZE) is None
                &&& final(a).next_free == old(a).next_free
            },
        },
{
    alloc_aligned(a, PAGE_SIZE, PAGE_SIZE)
}

/// Remaining room in whole KiB; zero for an uninitialized allocator.
pub fn free_kib(a: &PhysAllocator) -> (r: u64)
    ensures
        r == if a.next_free == 0 || a.limit <= a.next_free {
            0int
        } else {
            (a.limit - a.next_free) / 1024
        },
{
    let next: u64 = a.next_free;
    let limit: u64 = a.limit;
    if next == 0 || limit <= next {
        0
    } else {
        (limit - next) / 1024
    }
}

/// The page-aligned span inside a memory map entry that the allocator may
/// use: empty unless the region is usable and still holds room after both
/// ends are pulled onto page boundaries.
pub open spec fn spec_usable_span(e: MemoryMapEntry) -> (int, int) {
    if e.region_type != 1 {
        (0, 0)
    } else {
        let start = spec_align_up(e.base_addr, PAGE_SIZE);
        let end = (e.base_addr + e.length) - (e.base_addr + e.length) % (PAGE_SIZE as int);
        if end <= start {
            (0, 0)
        } else {
            (start, end - start)
        }
    }
}

/// The largest usable span among the first `i` entries; ties keep the
/// earlier entry.
pub open spec fn spec_best_region(entries: Seq<MemoryMapEntry>, i: int) -> (int, int)
    decreases i,
{
    if i <= 0 {
        (0, 0)
    } else {
        let prev = spec_best_region(entries, i - 1);
        let span = spec_usable_span(entries[i - 1]);
        if span.1 > prev.1 {
            span
        } else {
            prev
        }
    }
}

/// Select the single largest usable region of the memory map, page-align
/// both of its ends, and serve all future allocations from it. A map
/// without a page of usable memory leaves the allocator empty.
pub fn init(boot: &BootInfo) -> (r: PhysAllocator)
    requires
        forall|k: int|
            0 <= k < boot.entries@.len() ==> #[trigger] boot.entries@[k].base_addr
                + boot.entries@[k].length <= u64::MAX,
    ensures
        ({
            let best = spec_best_region(boot.entries@, boot.entries@.len() as int);
            if best.1 >= PAGE_SIZE {
                r.next_free == best.0 && r.limit == best.0 + best.1
            } else {
                r.next_free == 0 && r.limit == 0
            }
        }),
{
    let mut best_base: u64 = 0;
    let mut best_len: u64 = 0;
    let n: usize = boot.entries.len();
    let mut i: usize = 0;
    while i < n
        invariant
            i <= n,
            n == boot.entries@.len(),
            forall|k: int|
                0 <= k < boot.entries@.len() ==> #[trigger] boot.entries@[k].base_addr
                    + boot.entries@[k].length <= u64::MAX,
            (best_base as int, best_len as int) == spec_best_region(boot.entries@, i as int),
            best_len > 0 ==> best_base + best_len <= u64::MAX,
        decreases n - i,
    {
        let e: MemoryMapEntry = boot.entries[i];
        if e.is_usable() {
            proof {
                lemma_align_up_properties(e.base_addr, PAGE_SIZE);
            }
            match try_align_up(e.base_addr, PAGE_SIZE) {
                Some(start) => {
                    let end: u64 = align_down(e.base_addr + e.length, PAGE_SIZE);
                    if end > start {
                        let usable: u64 = end - start;
                        if usable > best_len {
                            best_base = start;
                            best_len = usable;
                        }
                    }
                },
                None => {
                    // The aligned start would sit past the address space;
                    // such a region holds no usable page.
                    proof {
                        lemma_align_down_properties(
                            (e.base_addr + e.length) as u64,
                            PAGE_SIZE,
                        );
                    }
                },
            }
        }
        i = i + 1;
    }
    if best_len >= PAGE_SIZE {
        PhysAllocator { next_free: best_base, limit: best_base + best_len }
    } else {
        PhysAllocator { next_free: 0, limit: 0 }
    }
}

/// Two allocations that both succeed, the second starting from the cursor
/// the first left behind, occupy disjoint address ranges in order, and each
/// address carries its requested alignment.
pub proof fn lemma_allocations_ordered(
    next0: u64,
    limit: u64,
    size1: u64,
    align1: u64,
    addr1: int,
    next1: int,
    size2: u64,
    align2: u64,
    addr2: int,
    next2: int,
)
    requires
        spec_alloc(next0, limit, size1, align1) == Some((addr1, next1)),
        0 <= next1 <= u64::MAX,
        spec_alloc(next1 as u64, limit, size2, align2) == Some((addr2, next2)),
    ensures
        addr1 + size1 <= addr2,
        addr1 % (align1 as int) == 0,
        addr2 % (align2 as int) == 0,
        addr2 + size2 <= limit,
{
    let g1: u64 = if align1 > PAGE_SIZE { align1 } else { PAGE_SIZE };
    let g2: u64 = if align2 > PAGE_SIZE { align2 } else { PAGE_SIZE };
    lemma_align_up_properties(size1, g1);
    lemma_align_up_properties(next0, align1);
    lemma_align_up_properties(size2, g2);
    lemma_align_up_properties(next1 as u64, align2);
    assert(addr1 + size1 <= next1);
    assert(next1 <= addr2);
}

} // verus!
