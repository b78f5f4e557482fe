//! Compute-dispatch model: the fixed grid of the device-offloaded backend.
//! The grid runs one invocation per block, so invocations times values per
//! invocation cover the 32-bit domain exactly. What each invocation
//! computes, and what the merged output word means, is verified here;
//! selecting a device, uploading the buffers and fencing on the copy-back
//! cannot stand in a verified library and is left to the surrounding
//! program.

use vstd::prelude::*;
use crate::BLOCK_SIZE;
use crate::DOMAIN_SIZE;
use crate::TOTAL_BLOCKS;
use crate::is_even_value;
use crate::combine::Accumulator;
use crate::scan::chunk_matches;
use crate::scan::scan_chunk;

verus! {

/// Number of invocations of the fixed dispatch grid: one per block, so the
/// grid covers the domain exactly.
pub const GRID_INVOCATIONS: u64 = TOTAL_BLOCKS;

/// What one compute invocation of the grid computes: whether its assigned
/// slice of the domain, one block wide, holds the queried value. On a
/// match the invocation writes a nonzero flag to the shared output word;
/// that write-true-only update never clears a prior match.
pub fn invocation_matches(num: u32, invocation: u64) -> (r: bool)
    requires
        invocation < GRID_INVOCATIONS,
    ensures
        r == chunk_matches(num, invocation, 1),
{
    scan_chunk(num, invocation, 1)
}

/// The whole dispatch, invocation by invocation: every invocation of the
/// grid runs to completion and its flag is merged write-true-only into the
/// single output word, as the device's atomic update does; the word is
/// read only after the last invocation. The answer equals the sequential
/// enumerator's on every input.
pub fn dispatch_model(num: u32) -> (r: bool)
    ensures
        r == is_even_value(num),
{
    let mut acc = Accumulator::new();
    let mut invocation: u64 = 0;
    while invocation < GRID_INVOCATIONS
        invariant
            invocation <= GRID_INVOCATIONS,
            acc.is_set() == (is_even_value(num) && num < invocation * BLOCK_SIZE),
        decreases GRID_INVOCATIONS - invocation,
    {
        let m = invocation_matches(num, invocation);
        acc.record(m);
        invocation = invocation + 1;
    }
    assert(num < GRID_INVOCATIONS * BLOCK_SIZE) by {
        assert(GRID_INVOCATIONS * BLOCK_SIZE == DOMAIN_SIZE);
    }
    acc.read()
}

} // verus!
