use even_odd::partition::partition;
use even_odd::pool::Request;
use even_odd::pool::WorkerBinding;
use even_odd::pool::WorkerState;
use even_odd::pool::combine_worker_replies;
use even_odd::pool::worker_step;

#[test]
fn worker_answers_query_and_stays_idle() {
    // The worker bound to block 0 covers [0, 4096).
    let binding = WorkerBinding { start_block: 0, num_blocks: 1 };
    let (state, reply) = worker_step(WorkerState::Idle, &binding, Request::Query(2));
    assert_eq!(state, WorkerState::Idle);
    assert_eq!(reply, Some(true));
    let (state, reply) = worker_step(state, &binding, Request::Query(3));
    assert_eq!(state, WorkerState::Idle);
    assert_eq!(reply, Some(false));
    let (state, reply) = worker_step(state, &binding, Request::Query(4096));
    assert_eq!(state, WorkerState::Idle);
    assert_eq!(reply, Some(false)); // even, but outside this worker's chunk
}

#[test]
fn worker_stop_terminates_for_good() {
    let binding = WorkerBinding { start_block: 0, num_blocks: 1 };
    let (state, reply) = worker_step(WorkerState::Idle, &binding, Request::Stop);
    assert_eq!(state, WorkerState::Terminated);
    assert_eq!(reply, None);
    // A terminated worker responds to nothing further.
    let (state, reply) = worker_step(state, &binding, Request::Query(0));
    assert_eq!(state, WorkerState::Terminated);
    assert_eq!(reply, None);
    let (state, reply) = worker_step(state, &binding, Request::Stop);
    assert_eq!(state, WorkerState::Terminated);
    assert_eq!(reply, None);
}

#[test]
fn pool_protocol_answers_sequential_queries() {
    // One fixed partition, bound once; the same workers serve every query,
    // as the persistent pool's threads do.
    let chunks = partition(4);
    let bindings: Vec<WorkerBinding> = chunks
        .iter()
        .map(|c| WorkerBinding { start_block: c.0, num_blocks: c.1 })
        .collect();
    let mut states: Vec<WorkerState> = bindings.iter().map(|_| WorkerState::Idle).collect();

    let cases: [(u32, bool); 6] = [
        (0, true),
        (1, false),
        (2, true),
        (9_999_999, false),
        (u32::MAX, false),
        (u32::MAX - 1, true),
    ];
    for (num, expected) in cases {
        let mut replies: Vec<bool> = Vec::new();
        for i in 0..bindings.len() {
            let (state, reply) = worker_step(states[i], &bindings[i], Request::Query(num));
            states[i] = state;
            replies.push(reply.expect("an idle worker answers every query"));
        }
        assert_eq!(combine_worker_replies(num, &chunks, &replies), expected);
    }

    // Teardown: one stop per worker, each processed exactly once.
    for i in 0..bindings.len() {
        let (state, reply) = worker_step(states[i], &bindings[i], Request::Stop);
        states[i] = state;
        assert_eq!(state, WorkerState::Terminated);
        assert_eq!(reply, None);
    }
}
