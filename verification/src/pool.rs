//! Persistent worker pool: the verified decision core of the long-lived
//! worker protocol. At pool construction each worker is permanently bound
//! to one chunk of the partition; it then serves one query per inbound
//! message, replying with exactly one boolean, until the stop signal moves
//! it to its final state. The channels and threads that carry the messages
//! run outside the library and only feed events to this state machine.

use vstd::prelude::*;
use crate::TOTAL_BLOCKS;
use crate::is_even_value;
use crate::combine::combine;
use crate::partition::Chunk;
use crate::partition::chunks_partition_blocks;
use crate::scan::chunk_matches;
use crate::scan::lemma_chunk_match_iff_even;
use crate::scan::scan_chunk;

verus! {

/// A message a worker receives on its private inbound channel: a query
/// carrying the value under test, or the signal that no more work comes.
#[derive(Clone, Copy, PartialEq, Eq, Structural, Debug)]
pub enum Request {
    Query(u32),
    Stop,
}

/// A worker's lifecycle state between messages. A scan runs to completion
/// within one step, so between messages a worker is observably either
/// waiting for the next request or terminated for good.
#[derive(Clone, Copy, PartialEq, Eq, Structural, Debug)]
pub enum WorkerState {
    Idle,
    Terminated,
}

/// A worker's permanent binding: the chunk fixed at pool construction,
/// immutable for the worker's whole lifetime.
#[derive(Clone, Copy, PartialEq, Eq, Structural, Debug)]
pub struct WorkerBinding {
    pub start_block: u64,
    pub num_blocks: u64,
}

impl WorkerBinding {
    /// The binding stays inside the block range.
    pub open spec fn wf(&self) -> bool {
        self.start_block + self.num_blocks <= TOTAL_BLOCKS
    }
}

/// What one worker step decides, as a function of state and message alone.
pub open spec fn step_spec(state: WorkerState, binding: WorkerBinding, request: Request) -> (
    WorkerState,
    Option<bool>,
) {
    match state {
        WorkerState::Idle => match request {
            Request::Query(n) => (
                WorkerState::Idle,
                Some(chunk_matches(n, binding.start_block, binding.num_blocks)),
            ),
            Request::Stop => (WorkerState::Terminated, None),
        },
        WorkerState::Terminated => (WorkerState::Terminated, None),
    }
}

/// One step of a worker: in the idle state a query is scanned against the
/// worker's fixed chunk, exhaustively and to completion, and answered with
/// exactly one response; the stop signal moves the worker to its final
/// state with no response; a terminated worker responds to nothing.
pub fn worker_step(state: WorkerState, binding: &WorkerBinding, request: Request) -> (outcome: (
    WorkerState,
    Option<bool>,
))
    requires
        binding.wf(),
    ensures
        outcome == step_spec(state, *binding, request),
{
    match state {
        WorkerState::Idle => match request {
            Request::Query(n) => (
                WorkerState::Idle,
                Some(scan_chunk(n, binding.start_block, binding.num_blocks)),
            ),
            Request::Stop => (WorkerState::Terminated, None),
        },
        WorkerState::Terminated => (WorkerState::Terminated, None),
    }
}

/// The state a worker is in after serving a stream of queries, oldest
/// first, starting idle.
pub open spec fn state_after_queries(binding: WorkerBinding, queries: Seq<u32>) -> WorkerState
    decreases queries.len(),
{
    if queries.len() == 0 {
        WorkerState::Idle
    } else {
        step_spec(
            state_after_queries(binding, queries.drop_last()),
            binding,
            Request::Query(queries.last()),
        ).0
    }
}

/// Law (persistent service): a worker that has only been queried is still
/// idle, however many queries it served, so one pool instance answers
/// unlimited sequential queries without re-partitioning; and the reply to
/// the next query is exactly the scan of the worker's fixed chunk.
pub proof fn lemma_worker_serves_query_stream(
    binding: WorkerBinding,
    queries: Seq<u32>,
    next: u32,
)
    ensures
        state_after_queries(binding, queries) is Idle,
        step_spec(state_after_queries(binding, queries), binding, Request::Query(next)).1
            == Some(chunk_matches(next, binding.start_block, binding.num_blocks)),
    decreases queries.len(),
{
    if queries.len() > 0 {
        lemma_worker_serves_query_stream(binding, queries.drop_last(), queries.last());
    }
}

/// Law (single-use teardown): the stop signal is final. An idle worker
/// that receives it terminates, and a terminated worker never produces
/// another response, whatever arrives later.
pub proof fn lemma_stop_is_final(binding: WorkerBinding, request: Request)
    ensures
        step_spec(WorkerState::Idle, binding, Request::Stop).0 is Terminated,
        step_spec(WorkerState::Terminated, binding, request).0 is Terminated,
        step_spec(WorkerState::Terminated, binding, request).1 is None,
{
}

/// Combines the one-per-worker replies of one pool query into the final
/// answer, in whatever order they arrived. With one reply per chunk of the
/// pool's fixed partition, each the worker's own scan, the merged answer
/// is exactly whether the queried value is even.
pub fn combine_worker_replies(num: u32, chunks: &Vec<Chunk>, replies: &Vec<bool>) -> (r: bool)
    requires
        chunks_partition_blocks(chunks@),
        replies@.len() == chunks@.len(),
        forall|i: int|
            0 <= i < replies@.len() ==> replies@[i] == chunk_matches(
                num,
                (#[trigger] chunks@[i]).0,
                chunks@[i].1,
            ),
    ensures
        r == is_even_value(num),
{
    let r = combine(replies);
    proof {
        lemma_chunk_match_iff_even(num, chunks@);
        if r {
            let i = choose|i: int| 0 <= i < replies@.len() && replies@[i];
            assert(chunk_matches(num, chunks@[i].0, chunks@[i].1));
        }
        if is_even_value(num) {
            let i = choose|i: int|
                0 <= i < chunks@.len() && chunk_matches(
                    num,
                    (#[trigger] chunks@[i]).0,
                    chunks@[i].1,
                );
            assert(replies@[i]);
        }
    }
    r
}

} // verus!
