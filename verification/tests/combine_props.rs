use even_odd::combine::Accumulator;
use even_odd::combine::combine;

#[test]
fn accumulator_starts_unset() {
    let acc = Accumulator::new();
    assert!(!acc.read());
}

#[test]
fn accumulator_is_monotonic() {
    let mut acc = Accumulator::new();
    acc.record(false);
    assert!(!acc.read());
    acc.record(true);
    assert!(acc.read());
    // Once set, later non-matches never reset it within the same query.
    acc.record(false);
    assert!(acc.read());
    acc.record(false);
    assert!(acc.read());
}

#[test]
fn combine_is_or_over_partials() {
    let no_results: Vec<bool> = vec![];
    assert!(!combine(&no_results));
    assert!(!combine(&vec![false, false, false]));
    assert!(combine(&vec![false, true, false]));
    assert!(combine(&vec![true]));
}
