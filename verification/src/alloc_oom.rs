//! A contract that probes running out of memory: it allocates ever larger
//! blocks from the heap region the host hands it, with a bump allocator,
//! until one does not fit.

use vstd::prelude::*;
use crate::heap::{VmHeap, round_up, sub_one, lemma_round_up};

verus! {

/// The first block the out-of-memory probe asks for, and how much each
/// next one grows.
pub const PROBE_FIRST: usize = 4 * 1024;
pub const PROBE_STEP: usize = 1024;
/// How many blocks the probe asks for at most.
pub const PROBE_ROUNDS: usize = 128;

/// The size of the probe's `i`-th block.
pub open spec fn probe_size(i: int) -> int {
    PROBE_FIRST + i * PROBE_STEP
}

/// Where the heap stands after the probe's first `i` blocks: `None` once
/// one did not fit.
pub open spec fn probe_state(start: int, end: int, i: nat) -> Option<int>
    decreases i,
{
    if i == 0 {
        Some(start)
    } else {
        match probe_state(start, end, (i - 1) as nat) {
            None => None,
            Some(pos) => {
                let next = round_up(pos, 8) + probe_size(i - 1);
                let next = if next > usize::MAX { usize::MAX as int } else { next };
                if next > end {
                    None
                } else {
                    Some(next)
                }
            },
        }
    }
}

/// An 8-aligned address at or above a position and less than 8 past it is
/// the position rounded up to 8.
proof fn lemma_aligned_is_round_up(pos: usize, addr: usize)
    requires
        addr & sub_one(8) == 0,
        pos <= addr < pos + 8,
    ensures
        addr == round_up(pos as int, 8),
{
    assert(sub_one(8) == 7);
    assert(addr % 8 == 0) by (bit_vector)
        requires
            addr & 7 == 0,
    ;
    lemma_round_up(pos as int, 8);
    let r = round_up(pos as int, 8);
    assert(addr == r) by (nonlinear_arith)
        requires
            addr % 8 == 0,
            r % 8 == 0,
            pos <= addr < pos + 8,
            pos <= r < pos + 8,
    ;
}

/// The probe, in the heap region `heap_start`, `heap_size` the host hands
/// the contract: allocates ever larger 8-aligned blocks; answers 0 as soon
/// as one fails, and 1 when all 128 succeed.
pub fn entrypoint(heap_start: usize, heap_size: usize) -> (r: u64)
    requires
        heap_start + heap_size + 8 <= usize::MAX,
    ensures
        r == (if probe_state(heap_start as int, heap_start + heap_size, PROBE_ROUNDS as nat) is Some {
            1u64
        } else {
            0u64
        }),
{
    let mut heap = VmHeap::new(heap_start, heap_size);
    let mut size: usize = PROBE_FIRST;
    let mut allocations: u64 = 0;
    let mut i: usize = 0;
    while i < PROBE_ROUNDS
        invariant
            i <= PROBE_ROUNDS,
            heap.start == heap_start,
            heap.end == heap_start + heap_size,
            heap_start <= heap.pos <= heap.end,
            heap_start + heap_size + 8 <= usize::MAX,
            size == probe_size(i as int),
            allocations == i,
            probe_state(heap_start as int, heap_start + heap_size, i as nat) == Some(heap.pos as int),
        decreases PROBE_ROUNDS - i,
    {
        assert(8usize & sub_one(8usize) == 0) by (bit_vector);
        let ghost before = heap.pos;
        match heap.allocate(size, 8) {
            None => {
                proof {
                    let addr = choose|addr: usize|
                        {
                            &&& #[trigger] (addr & sub_one(8)) == 0
                            &&& before <= addr < before + 8
                            &&& (if addr + size > usize::MAX { usize::MAX as int } else { addr + size }) > heap.end
                        };
                    lemma_aligned_is_round_up(before, addr);
                    assert(probe_state(heap_start as int, heap_start + heap_size, (i + 1) as nat) is None);
                    lemma_probe_stays_failed(heap_start as int, heap_start + heap_size, (i + 1) as nat, PROBE_ROUNDS as nat);
                }
                return 0;
            },
            Some(addr) => {
                proof {
                    lemma_aligned_is_round_up(before, addr);
                }
            },
        }
        allocations = allocations + 1;
        size = size.saturating_add(PROBE_STEP);
        i = i + 1;
    }
    1
}

/// Once a block of the probe did not fit, the probe stays failed.
proof fn lemma_probe_stays_failed(start: int, end: int, i: nat, j: nat)
    requires
        probe_state(start, end, i) is None,
        i <= j,
    ensures
        probe_state(start, end, j) is None,
    decreases j - i,
{
    if i < j {
        lemma_probe_stays_failed(start, end, i, (j - 1) as nat);
    }
}

} // verus!
