//! Decides whether a 32-bit unsigned integer is even by exhaustively
//! enumerating the even values of the domain and looking for a match,
//! on purpose, to exercise several parallel execution strategies over
//! one and the same partition of the search space.

use vstd::prelude::*;
use rayon::iter::IntoParallelRefIterator;
use rayon::iter::ParallelIterator;

pub mod combine;
pub mod gpu;
pub mod partition;
pub mod pool;
pub mod scan;

verus! {

use crate::combine::combine;
use crate::partition::Chunk;
use crate::partition::partition;
use crate::scan::chunk_matches;
use crate::scan::lemma_chunk_match_iff_even;
use crate::scan::lemma_chunks_stay_in_range;
use crate::scan::scan_chunk;

/// Number of values in one block, the atomic unit of the partition:
/// a power of two, `2^12`.
pub const BLOCK_SIZE: u64 = 0x1000;

/// Number of blocks that tile the whole 32-bit domain exactly: `2^20`.
pub const TOTAL_BLOCKS: u64 = 0x10_0000;

/// Number of values in the whole domain, `2^32`.
pub const DOMAIN_SIZE: u64 = 0x1_0000_0000;

/// What every backend computes: whether `num` is even.
pub open spec fn is_even_value(num: u32) -> bool {
    num % 2 == 0
}

/// Sequential enumerator, the reference backend: walks the canonical even
/// sequence 0, 2, 4, ... with checked arithmetic, so that it stops at the
/// domain boundary instead of wrapping around, and reports whether `num`
/// ever appears in the sequence.
pub fn is_even(num: u32) -> (r: bool)
    ensures
        r == is_even_value(num),
{
    let mut even = false;
    let mut known: u32 = 0;
    loop
        invariant_except_break
            known % 2 == 0,
            even == (is_even_value(num) && num < known),
        ensures
            even == is_even_value(num),
        decreases 0x1_0000_0000 - known,
    {
        if num == known {
            even = true;
        }
        match known.checked_add(2) {
            Some(next) => {
                known = next;
            }
            None => {
                break;
            }
        }
    }
    even
}

/// Relies on rayon's `current_num_threads`: the number of threads of the
/// surrounding (or global) thread pool, which rayon builds with at least
/// one thread. Used only as the degree of parallelism of one query.
#[verifier::external_body]
fn parallelism_degree() -> (n: u64)
    ensures
        1 <= n,
{
    rayon::current_num_threads() as u64
}

/// Relies on rayon's parallel iterator `map` and `collect` over a vector:
/// the closure is applied to every element, the collected results keep the
/// element order, and a panic in a worker propagates to this call instead
/// of yielding a silent wrong answer. The closure only calls the verified
/// per-chunk scanner, so each collected entry is that scanner's answer for
/// its chunk.
#[verifier::external_body]
fn scan_chunks_parallel(num: u32, chunks: &Vec<Chunk>) -> (results: Vec<bool>)
    requires
        forall|i: int|
            0 <= i < chunks@.len() ==> (#[trigger] chunks@[i]).0 + chunks@[i].1 <= TOTAL_BLOCKS,
    ensures
        results@.len() == chunks@.len(),
        forall|i: int|
            0 <= i < chunks@.len() ==> results@[i] == chunk_matches(
                num,
                (#[trigger] chunks@[i]).0,
                chunks@[i].1,
            ),
{
    chunks.par_iter().map(|c: &Chunk| scan_chunk(num, c.0, c.1)).collect()
}

/// Data-parallel backend: partitions the block range into one chunk per
/// available worker, hands all chunks to the work-stealing pool, scans each
/// independently and to completion, and merges the partial results with the
/// result combiner once all of them are in.
pub fn is_even_parallel(num: u32) -> (r: bool)
    ensures
        r == is_even_value(num),
{
    let degree = parallelism_degree();
    let chunks = partition(degree);
    proof {
        lemma_chunks_stay_in_range(chunks@);
    }
    let results = scan_chunks_parallel(num, &chunks);
    let r = combine(&results);
    proof {
        lemma_chunk_match_iff_even(num, chunks@);
        if r {
            let i = choose|i: int| 0 <= i < results@.len() && results@[i];
            assert(chunk_matches(num, chunks@[i].0, chunks@[i].1));
        }
        if is_even_value(num) {
            let i = choose|i: int|
                0 <= i < chunks@.len() && chunk_matches(
                    num,
                    (#[trigger] chunks@[i]).0,
                    chunks@[i].1,
                );
            assert(results@[i]);
        }
    }
    r
}

} // verus!
