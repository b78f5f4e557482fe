use even_odd::gpu::dispatch_model;
use even_odd::gpu::invocation_matches;
use even_odd::is_even;

#[test]
fn dispatch_matches_sequential_on_low_boundaries() {
    assert_eq!(dispatch_model(0), is_even(0));
    assert_eq!(dispatch_model(1), is_even(1));
    assert_eq!(dispatch_model(2), is_even(2));
}

#[test]
fn dispatch_matches_sequential_on_high_boundaries() {
    assert_eq!(dispatch_model(u32::MAX - 1), is_even(u32::MAX - 1));
    assert_eq!(dispatch_model(u32::MAX), is_even(u32::MAX));
}

#[test]
fn dispatch_matches_sequential_on_large_odd_composite() {
    assert_eq!(dispatch_model(9_999_999), is_even(9_999_999));
    assert!(!dispatch_model(9_999_999));
}

#[test]
fn invocation_reports_only_its_own_slice() {
    // Invocation 2 owns [8192, 12288).
    assert!(invocation_matches(8192, 2));
    assert!(!invocation_matches(8192, 1));
    assert!(!invocation_matches(8193, 2));
}
