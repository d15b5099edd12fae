//! Bump allocation of a contract's heap: each allocation takes the next
//! suitably aligned block after the previous one and nothing is ever
//! freed; when a block does not fit, the allocation fails.
//!
//! Two heaps are used by the contracts: a fixed 32 KiB array, and the
//! region the host hands the contract, grown into until it runs out.

use vstd::prelude::*;

verus! {

/// The size of the fixed heap.
pub const HEAP_SIZE: usize = 32 * 1024;

/// `pos` rounded up to a multiple of `align`.
pub open spec fn round_up(pos: int, align: int) -> int {
    (pos + align - 1) / align * align
}

/// A bump allocator over the fixed 32 KiB heap; `pos` is the first free
/// offset.
pub struct FixedHeap {
    pub pos: usize,
}

impl FixedHeap {
    pub fn new() -> (r: FixedHeap)
        ensures
            r.pos == 0,
    {
        FixedHeap { pos: 0 }
    }

    /// Allocates `size` bytes aligned to `align`: the offset of the block,
    /// or `None` when it would not fit (the heap is then unchanged).
    pub fn allocate(&mut self, size: usize, align: usize) -> (r: Option<usize>)
        requires
            align > 0,
            round_up(old(self).pos as int, align as int) + size <= usize::MAX,
            old(self).pos + align <= usize::MAX,
        ensures
            match r {
                Some(offset) => {
                    &&& offset == round_up(old(self).pos as int, align as int)
                    &&& (offset as int) % (align as int) == 0
                    &&& old(self).pos <= offset
                    &&& offset + size <= HEAP_SIZE
                    &&& final(self).pos == offset + size
                },
                None => {
                    &&& round_up(old(self).pos as int, align as int) + size > HEAP_SIZE
                    &&& final(self).pos == old(self).pos
                },
            },
    {
        let pos = (self.pos + align - 1) / align * align;
        proof {
            lemma_round_up(self.pos as int, align as int);
        }
        if pos + size > HEAP_SIZE {
            None
        } else {
            self.pos = pos + size;
            Some(pos)
        }
    }
}

/// Rounding up gives a multiple of the alignment, at or above the position
/// and less than one alignment past it.
pub proof fn lemma_round_up(pos: int, align: int)
    requires
        pos >= 0,
        align > 0,
    ensures
        round_up(pos, align) % align == 0,
        pos <= round_up(pos, align) < pos + align,
{
    let q = (pos + align - 1) / align;
    assert(q * align % align == 0) by (nonlinear_arith)
        requires
            align > 0,
    ;
    assert(pos <= q * align < pos + align) by (nonlinear_arith)
        requires
            q == (pos + align - 1) / align,
            align > 0,
            pos >= 0,
    ;
}

/// A bump allocator over the region the host hands the contract: from
/// `start` to `end`, with `pos` the first free address.
pub struct VmHeap {
    pub start: usize,
    pub end: usize,
    pub pos: usize,
}

impl VmHeap {
    /// The heap over the host's region of `size` bytes at `start`, its end
    /// saturating at the top of the address space.
    pub fn new(start: usize, size: usize) -> (r: VmHeap)
        ensures
            r.start == start,
            r.pos == start,
            r.end == if start + size > usize::MAX { usize::MAX as int } else { start + size },
    {
        VmHeap { start, end: start.saturating_add(size), pos: start }
    }

    /// Allocates `size` bytes aligned to `align`, a power of two: the
    /// address of the block, or `None` when it would pass the end (the heap
    /// is then unchanged).  The end of the block saturates at the top of the
    /// address space.
    pub fn allocate(&mut self, size: usize, align: usize) -> (r: Option<usize>)
        requires
            align > 0,
            align & (sub_one(align)) == 0,
            old(self).pos + align <= usize::MAX,
        ensures
            match r {
                Some(addr) => {
                    &&& addr & sub_one(align) == 0
                    &&& old(self).pos <= addr < old(self).pos + align
                    &&& final(self).pos == (if addr + size > usize::MAX { usize::MAX as int } else { addr + size })
                    &&& final(self).pos <= old(self).end
                    &&& final(self).end == old(self).end
                    &&& final(self).start == old(self).start
                },
                None => {
                    &&& *final(self) == *old(self)
                    &&& exists|addr: usize|
                        {
                            &&& #[trigger] (addr & sub_one(align)) == 0
                            &&& old(self).pos <= addr < old(self).pos + align
                            &&& (if addr + size > usize::MAX { usize::MAX as int } else { addr + size }) > old(self).end
                        }
                },
            },
    {
        let current = self.pos;
        let aligned = (current + align - 1) & !(align - 1);
        proof {
            lemma_mask_align(current, align);
        }
        let next = aligned.saturating_add(size);
        if next > self.end {
            None
        } else {
            self.pos = next;
            Some(aligned)
        }
    }
}

/// `x - 1`, for the alignment mask.
pub open spec fn sub_one(x: usize) -> usize {
    (x - 1) as usize
}

/// Masking a position bumped by `align - 1` with the complement of
/// `align - 1` aligns it, at or above the position and less than one
/// alignment past it.
pub proof fn lemma_mask_align(current: usize, align: usize)
    requires
        align > 0,
        align & sub_one(align) == 0,
        current + align <= usize::MAX,
    ensures
        (((current + sub_one(align)) as usize) & !sub_one(align)) & sub_one(align) == 0,
        current <= ((current + sub_one(align)) as usize) & !sub_one(align) < current + align,
{
    let m = sub_one(align);
    let c = current;
    assert(m == align - 1);
    assert(((((c + m) as usize) & !m) & m) == 0) by (bit_vector);

    assert(c <= (((c + m) as usize) & !m) && (((c + m) as usize) & !m) <= c + m) by (bit_vector)
        requires
            ((c + m) as usize) == c + m,
            align & m == 0,
            m == align - 1,
            align > 0,
    ;
}

} // verus!
