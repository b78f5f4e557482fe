use even_odd::TOTAL_BLOCKS;
use even_odd::partition::partition;

#[test]
fn partition_single_chunk() {
    let chunks = partition(1);
    assert_eq!(chunks, vec![(0, TOTAL_BLOCKS)]);
}

#[test]
fn partition_contiguous_ordered_and_sums() {
    let chunks = partition(7);
    assert_eq!(chunks.len(), 7);
    assert_eq!(chunks[0].0, 0);
    let mut sum: u64 = 0;
    for i in 0..chunks.len() {
        assert!(chunks[i].1 >= 1);
        if i + 1 < chunks.len() {
            // Contiguous and ordered: each chunk starts where the previous ends.
            assert_eq!(chunks[i + 1].0, chunks[i].0 + chunks[i].1);
        }
        sum += chunks[i].1;
    }
    assert_eq!(sum, TOTAL_BLOCKS);
    // All but the last chunk get exactly the quotient; the last absorbs
    // the remainder.
    let blocks_per_chunk: u64 = TOTAL_BLOCKS / 7;
    assert_eq!(blocks_per_chunk, 149_796);
    for i in 0..6 {
        assert_eq!(chunks[i].1, blocks_per_chunk);
    }
    assert_eq!(chunks[6].1, 149_800);
}

#[test]
fn partition_clamps_chunk_count_to_total_blocks() {
    let chunks = partition(2_000_000);
    assert_eq!(chunks.len(), TOTAL_BLOCKS as usize);
    for i in 0..chunks.len() {
        assert_eq!(chunks[i].1, 1);
        assert_eq!(chunks[i].0, i as u64);
    }
}
