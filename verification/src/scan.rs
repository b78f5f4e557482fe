//! Per-chunk scanner: the exhaustive walk that every backend's unit of
//! parallel work performs over its own slice of the domain.

use vstd::prelude::*;
use vstd::arithmetic::div_mod::lemma_fundamental_div_mod;
use vstd::arithmetic::div_mod::lemma_mod_division_less_than_divisor;
use crate::BLOCK_SIZE;
use crate::TOTAL_BLOCKS;
use crate::is_even_value;
use crate::partition::Chunk;
use crate::partition::chunks_partition_blocks;
use crate::partition::lemma_chunks_cover_block;
use crate::partition::lemma_chunks_disjoint;

verus! {

/// First value of the chunk in the 32-bit domain.
pub open spec fn chunk_lo(start_block: u64) -> int {
    start_block * BLOCK_SIZE
}

/// One past the last value of the chunk.
pub open spec fn chunk_hi(start_block: u64, num_blocks: u64) -> int {
    (start_block + num_blocks) * BLOCK_SIZE
}

/// What one unit of work reports: whether `num` is even and lies in the
/// chunk's value range.
pub open spec fn chunk_matches(num: u32, start_block: u64, num_blocks: u64) -> bool {
    is_even_value(num) && chunk_lo(start_block) <= num < chunk_hi(start_block, num_blocks)
}

/// Walks the chunk's even values, stepping by 2 from the chunk's first
/// value, and reports whether `num` was seen. The scan always runs to the
/// end of the chunk; a match does not cut it short. Wrapping addition is
/// safe here: only the step past the chunk's last value can wrap, and only
/// for the chunk at the top of the domain, after the last comparison.
pub fn scan_chunk(num: u32, start_block: u64, num_blocks: u64) -> (r: bool)
    requires
        start_block + num_blocks <= TOTAL_BLOCKS,
    ensures
        r == chunk_matches(num, start_block, num_blocks),
{
    if num_blocks == 0 {
        return false;
    }
    let steps: u64 = BLOCK_SIZE * num_blocks / 2;
    let lo: u64 = start_block * BLOCK_SIZE;
    let ghost hi: int = lo + 2 * steps;
    assert(hi == chunk_hi(start_block, num_blocks));
    let mut local_even = false;
    let mut known: u32 = lo as u32;
    let mut j: u64 = 0;
    while j < steps
        invariant
            steps >= 1,
            lo == start_block * BLOCK_SIZE,
            lo % 2 == 0,
            hi == lo + 2 * steps,
            hi <= 0x1_0000_0000,
            j <= steps,
            j < steps ==> known == lo + 2 * j,
            local_even == (is_even_value(num) && lo <= num < lo + 2 * j),
        decreases steps - j,
    {
        if known == num {
            local_even = true;
        }
        known = known.wrapping_add(2);
        j = j + 1;
    }
    local_even
}

/// In a partition of the block range, no chunk reaches past the total
/// block count.
pub proof fn lemma_chunks_stay_in_range(chunks: Seq<Chunk>)
    requires
        chunks_partition_blocks(chunks),
    ensures
        forall|i: int|
            0 <= i < chunks.len() ==> (#[trigger] chunks[i]).0 + chunks[i].1 <= TOTAL_BLOCKS,
{
    assert forall|i: int|
        0 <= i < chunks.len() implies (#[trigger] chunks[i]).0 + chunks[i].1
        <= TOTAL_BLOCKS by {
        if i < chunks.len() - 1 {
            lemma_chunks_disjoint(chunks, i, chunks.len() - 1);
        }
    }
}

/// Law: over a partition of the block range, some chunk reports a match
/// iff the queried value is even. Each even value lies in the value range
/// of the chunk that covers its block; an odd value matches nowhere.
pub proof fn lemma_chunk_match_iff_even(num: u32, chunks: Seq<Chunk>)
    requires
        chunks_partition_blocks(chunks),
    ensures
        (exists|i: int|
            0 <= i < chunks.len() && chunk_matches(num, (#[trigger] chunks[i]).0, chunks[i].1))
            == is_even_value(num),
{
    if is_even_value(num) {
        lemma_fundamental_div_mod(num as int, BLOCK_SIZE as int);
        lemma_mod_division_less_than_divisor(num as int, BLOCK_SIZE as int);
        let b: u64 = (num as int / BLOCK_SIZE as int) as u64;
        assert(BLOCK_SIZE * b <= num < BLOCK_SIZE * (b + 1));
        lemma_chunks_cover_block(chunks, b);
        let i = choose|i: int|
            0 <= i < chunks.len() && (#[trigger] chunks[i]).0 <= b < chunks[i].0 + chunks[i].1;
        assert(chunk_matches(num, chunks[i].0, chunks[i].1));
    }
}

} // verus!
