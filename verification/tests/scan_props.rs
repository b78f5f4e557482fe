use even_odd::BLOCK_SIZE;
use even_odd::TOTAL_BLOCKS;
use even_odd::scan::scan_chunk;

#[test]
fn scan_chunk_finds_even_values_in_range_only() {
    // The chunk of one block starting at block 1 covers [4096, 8192).
    assert_eq!(BLOCK_SIZE, 4096);
    assert!(scan_chunk(4096, 1, 1));
    assert!(scan_chunk(8190, 1, 1));
    assert!(!scan_chunk(4097, 1, 1)); // odd
    assert!(!scan_chunk(4094, 1, 1)); // below the chunk
    assert!(!scan_chunk(8192, 1, 1)); // past the chunk
}

#[test]
fn scan_chunk_empty_chunk_matches_nothing() {
    assert!(!scan_chunk(0, 0, 0));
    assert!(!scan_chunk(4096, 1, 0));
}

#[test]
fn scan_chunk_top_of_domain_does_not_wrap() {
    // The last block ends exactly at the domain boundary: the maximal even
    // value is found, the odd maximum is not, and the step past the end
    // must not wrap around to a match at 0.
    assert!(scan_chunk(u32::MAX - 1, TOTAL_BLOCKS - 1, 1));
    assert!(!scan_chunk(u32::MAX, TOTAL_BLOCKS - 1, 1));
    assert!(!scan_chunk(0, TOTAL_BLOCKS - 1, 1));
}

#[test]
fn scan_chunk_whole_domain() {
    assert!(scan_chunk(2, 0, TOTAL_BLOCKS));
    assert!(!scan_chunk(3, 0, TOTAL_BLOCKS));
}
