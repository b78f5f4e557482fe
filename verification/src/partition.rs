//! Range partitioner: divides the block range `[0, TOTAL_BLOCKS)` into a
//! fixed number of contiguous, non-overlapping chunks, one per unit of
//! parallel work, with the remainder absorbed by the last chunk.

use vstd::prelude::*;
use vstd::arithmetic::div_mod::lemma_fundamental_div_mod;
use vstd::arithmetic::div_mod::lemma_mod_division_less_than_divisor;
use vstd::arithmetic::mul::lemma_mul_is_distributive_add_other_way;
use vstd::arithmetic::mul::lemma_mul_inequality;
use crate::TOTAL_BLOCKS;

verus! {

/// A chunk: a contiguous run of blocks, as (start block index, block count).
pub type Chunk = (u64, u64);

/// The chunks exactly partition the block range `[0, TOTAL_BLOCKS)`:
/// there is at least one, each is non-empty, the first starts at block 0,
/// each further one starts right after its predecessor, and the last ends
/// exactly at the total block count. No gaps, no overlaps.
pub open spec fn chunks_partition_blocks(chunks: Seq<Chunk>) -> bool {
    &&& chunks.len() >= 1
    &&& chunks[0].0 == 0
    &&& (forall|i: int| 0 <= i < chunks.len() ==> (#[trigger] chunks[i]).1 >= 1)
    &&& (forall|i: int|
        0 <= i < chunks.len() - 1 ==> (#[trigger] chunks[i + 1]).0 == chunks[i].0 + chunks[i].1)
    &&& chunks.last().0 + chunks.last().1 == TOTAL_BLOCKS
}

/// Splits the block range into `chunk_count` chunks (clamped to the total
/// block count, so that no chunk is empty). Every chunk except the last
/// holds exactly `TOTAL_BLOCKS / chunk_count` blocks; the last absorbs
/// the remainder.
pub fn partition(chunk_count: u64) -> (chunks: Vec<Chunk>)
    requires
        1 <= chunk_count,
    ensures
        chunks_partition_blocks(chunks@),
        chunks@.len() == (if chunk_count <= TOTAL_BLOCKS {
            chunk_count as int
        } else {
            TOTAL_BLOCKS as int
        }),
        forall|i: int|
            0 <= i < chunks@.len() - 1 ==> (#[trigger] chunks@[i]).1 == TOTAL_BLOCKS as int
                / chunks@.len() as int,
{
    let num_chunks: u64 = if chunk_count < TOTAL_BLOCKS {
        chunk_count
    } else {
        TOTAL_BLOCKS
    };
    let blocks_per_chunk: u64 = TOTAL_BLOCKS / num_chunks;
    proof {
        lemma_fundamental_div_mod(TOTAL_BLOCKS as int, num_chunks as int);
        lemma_mod_division_less_than_divisor(TOTAL_BLOCKS as int, num_chunks as int);
        // TOTAL_BLOCKS == num_chunks * blocks_per_chunk + (TOTAL_BLOCKS % num_chunks),
        // so blocks_per_chunk >= 1 and num_chunks * blocks_per_chunk <= TOTAL_BLOCKS.
        assert(blocks_per_chunk >= 1) by {
            if blocks_per_chunk == 0 {
                assert(num_chunks as int * 0 == 0);
            }
        }
    }
    let ghost total_used: int = num_chunks as int * blocks_per_chunk as int;
    let mut chunks: Vec<Chunk> = Vec::new();
    let mut start_block: u64 = 0;
    let mut i: u64 = 0;
    while i < num_chunks
        invariant
            1 <= num_chunks <= TOTAL_BLOCKS,
            1 <= blocks_per_chunk,
            blocks_per_chunk == TOTAL_BLOCKS as int / num_chunks as int,
            total_used == num_chunks as int * blocks_per_chunk as int,
            total_used <= TOTAL_BLOCKS,
            i <= num_chunks,
            chunks@.len() == i,
            start_block == (if i < num_chunks {
                i as int * blocks_per_chunk as int
            } else {
                TOTAL_BLOCKS as int
            }),
            forall|j: int|
                0 <= j < i ==> (#[trigger] chunks@[j]).0 == j * blocks_per_chunk as int,
            forall|j: int|
                0 <= j < i && j < num_chunks - 1 ==> (#[trigger] chunks@[j]).1
                    == blocks_per_chunk,
            forall|j: int| 0 <= j < i ==> (#[trigger] chunks@[j]).1 >= 1,
            i == num_chunks ==> chunks@.last().0 + chunks@.last().1 == TOTAL_BLOCKS,
        decreases num_chunks - i,
    {
        proof {
            // (i + 1) * blocks_per_chunk == i * blocks_per_chunk + blocks_per_chunk,
            // and (i + 1) * blocks_per_chunk <= num_chunks * blocks_per_chunk <= TOTAL_BLOCKS,
            // so the next start offset stays within the block range.
            lemma_mul_is_distributive_add_other_way(blocks_per_chunk as int, i as int, 1);
            lemma_mul_inequality(i as int + 1, num_chunks as int, blocks_per_chunk as int);
        }
        let num_blocks: u64 = if i + 1 == num_chunks {
            TOTAL_BLOCKS - start_block
        } else {
            blocks_per_chunk
        };
        chunks.push((start_block, num_blocks));
        start_block = start_block + num_blocks;
        i = i + 1;
    }
    proof {
        assert forall|j: int|
            0 <= j < chunks@.len() - 1 implies (#[trigger] chunks@[j + 1]).0 == chunks@[j].0
            + chunks@[j].1 by {
            lemma_mul_is_distributive_add_other_way(blocks_per_chunk as int, j, 1);
        }
    }
    chunks
}

/// Every block index below the total is covered by one of the chunks:
/// the partition leaves no gap.
pub proof fn lemma_chunks_cover_block(chunks: Seq<Chunk>, b: u64)
    requires
        chunks_partition_blocks(chunks),
        b < TOTAL_BLOCKS,
    ensures
        exists|i: int|
            0 <= i < chunks.len() && (#[trigger] chunks[i]).0 <= b < chunks[i].0 + chunks[i].1,
{
    lemma_cover_prefix(chunks, b, chunks.len() - 1);
}

/// Helper for the covering law: a block below the end of chunk `j` is
/// covered by one of the chunks up to `j`.
proof fn lemma_cover_prefix(chunks: Seq<Chunk>, b: u64, j: int)
    requires
        chunks_partition_blocks(chunks),
        0 <= j < chunks.len(),
        b < chunks[j].0 + chunks[j].1,
    ensures
        exists|i: int|
            0 <= i <= j && (#[trigger] chunks[i]).0 <= b < chunks[i].0 + chunks[i].1,
    decreases j,
{
    if b >= chunks[j].0 {
        assert(chunks[j].0 <= b < chunks[j].0 + chunks[j].1);
    } else {
        assert(j >= 1) by {
            assert(chunks[0].0 == 0);
        }
        assert(chunks[(j - 1) + 1].0 == chunks[j - 1].0 + chunks[j - 1].1);
        lemma_cover_prefix(chunks, b, j - 1);
    }
}

/// The chunks are ordered and pairwise disjoint: every block of an earlier
/// chunk lies strictly before the first block of any later chunk.
pub proof fn lemma_chunks_disjoint(chunks: Seq<Chunk>, i: int, j: int)
    requires
        chunks_partition_blocks(chunks),
        0 <= i < j < chunks.len(),
    ensures
        chunks[i].0 + chunks[i].1 <= chunks[j].0,
    decreases j - i,
{
    assert(chunks[(j - 1) + 1].0 == chunks[j - 1].0 + chunks[j - 1].1);
    if j > i + 1 {
        lemma_chunks_disjoint(chunks, i, j - 1);
    }
}

/// Total number of blocks held by a sequence of chunks.
pub open spec fn count_sum(chunks: Seq<Chunk>) -> int
    decreases chunks.len(),
{
    if chunks.len() == 0 {
        0
    } else {
        count_sum(chunks.drop_last()) + chunks.last().1
    }
}

/// The chunks' block counts sum exactly to the total block count.
pub proof fn lemma_chunk_counts_sum_to_total(chunks: Seq<Chunk>)
    requires
        chunks_partition_blocks(chunks),
    ensures
        count_sum(chunks) == TOTAL_BLOCKS,
{
    lemma_prefix_count_sum(chunks, chunks.len() - 1);
    assert(chunks.subrange(0, chunks.len() as int) =~= chunks);
}

/// Helper for the sum law: the counts of the chunks up to `j` sum to the
/// end block of chunk `j`.
proof fn lemma_prefix_count_sum(chunks: Seq<Chunk>, j: int)
    requires
        chunks_partition_blocks(chunks),
        0 <= j < chunks.len(),
    ensures
        count_sum(chunks.subrange(0, j + 1)) == chunks[j].0 + chunks[j].1,
    decreases j,
{
    let prefix = chunks.subrange(0, j + 1);
    assert(prefix.last() == chunks[j]);
    if j == 0 {
        assert(prefix.drop_last() =~= chunks.subrange(0, 0));
        assert(count_sum(chunks.subrange(0, 0)) == 0);
    } else {
        assert(prefix.drop_last() =~= chunks.subrange(0, j));
        assert(chunks[(j - 1) + 1].0 == chunks[j - 1].0 + chunks[j - 1].1);
        lemma_prefix_count_sum(chunks, j - 1);
    }
}

} // verus!
