//! The statically reserved firmware stack region, partitioned into one
//! fixed-size slice per hart. Slice assignment is pure arithmetic on the
//! hart id, so distinct harts provably receive disjoint slices.

use vstd::prelude::*;

verus! {

/// Number of harts of this target.
pub const NUM_HARTS: usize = 5;

/// Bytes of stack reserved for each hart.
pub const PER_HART_STACK_SIZE: usize = 4 * 4096;

/// Bytes of the whole stack region: one slice per hart.
pub const SBI_STACK_SIZE: usize = 5 * (4 * 4096);

/// First byte offset of a hart's stack slice inside the stack region.
pub open spec fn stack_slice_lo(hart_id: int) -> int {
    hart_id * PER_HART_STACK_SIZE
}

/// One-past-the-last byte offset of a hart's stack slice.
pub open spec fn stack_slice_hi(hart_id: int) -> int {
    (hart_id + 1) * PER_HART_STACK_SIZE
}

/// The byte offsets `[lo, hi)` of this hart's stack slice inside the stack
/// region: slices are laid out back to back in hart-id order.
pub fn hart_stack_slice(hart_id: usize) -> (r: (usize, usize))
    requires
        hart_id < NUM_HARTS,
    ensures
        r.0 == stack_slice_lo(hart_id as int),
        r.1 == stack_slice_hi(hart_id as int),
        r.1 - r.0 == PER_HART_STACK_SIZE,
        r.1 <= SBI_STACK_SIZE,
{
    (hart_id * PER_HART_STACK_SIZE, (hart_id + 1) * PER_HART_STACK_SIZE)
}

/// The initial stack pointer a hart sets up at reset: the top of its own
/// slice, `stack_base + (hart_id + 1) * PER_HART_STACK_SIZE`.
pub fn hart_stack_pointer(stack_base: usize, hart_id: usize) -> (r: usize)
    requires
        hart_id < NUM_HARTS,
        stack_base + SBI_STACK_SIZE <= usize::MAX,
    ensures
        r == stack_base + stack_slice_hi(hart_id as int),
{
    stack_base + (hart_id + 1) * PER_HART_STACK_SIZE
}

/// Distinct harts get disjoint stack slices, each of size exactly
/// `PER_HART_STACK_SIZE`: the slice of the smaller hart id ends no later
/// than the slice of the larger one begins.
pub proof fn lemma_stack_slices_disjoint(h1: int, h2: int)
    requires
        0 <= h1 < NUM_HARTS,
        0 <= h2 < NUM_HARTS,
        h1 != h2,
    ensures
        stack_slice_hi(h1) - stack_slice_lo(h1) == PER_HART_STACK_SIZE,
        stack_slice_hi(h2) - stack_slice_lo(h2) == PER_HART_STACK_SIZE,
        h1 < h2 ==> stack_slice_hi(h1) <= stack_slice_lo(h2),
        h2 < h1 ==> stack_slice_hi(h2) <= stack_slice_lo(h1),
{
    assert(stack_slice_hi(h1) == h1 * PER_HART_STACK_SIZE + PER_HART_STACK_SIZE) by (nonlinear_arith);
    assert(stack_slice_hi(h2) == h2 * PER_HART_STACK_SIZE + PER_HART_STACK_SIZE) by (nonlinear_arith);
    assert(h1 < h2 ==> (h1 + 1) * PER_HART_STACK_SIZE <= h2 * PER_HART_STACK_SIZE) by (nonlinear_arith);
    assert(h2 < h1 ==> (h2 + 1) * PER_HART_STACK_SIZE <= h1 * PER_HART_STACK_SIZE) by (nonlinear_arith);
}

} // verus!
