//! Result combiner and the shared accumulator: partial results of the
//! units of work of one query are merged by logical OR, through a
//! write-true-only flag that can move from false to true and never back.

use vstd::prelude::*;

verus! {

/// The merged answer of a set of partial results: true iff any is true.
pub open spec fn any_true(results: Seq<bool>) -> bool {
    exists|i: int| 0 <= i < results.len() && results[i]
}

/// The boolean accumulator of one query: initialized unset, written only
/// when a worker reports a match, read once after all workers completed.
pub struct Accumulator {
    matched: bool,
}

impl Accumulator {
    /// Whether some recorded partial result was a match.
    pub closed spec fn is_set(&self) -> bool {
        self.matched
    }

    /// Starts a query with no match recorded.
    pub fn new() -> (acc: Accumulator)
        ensures
            !acc.is_set(),
    {
        Accumulator { matched: false }
    }

    /// Merges one worker's partial result. The write-true-only discipline:
    /// the flag is written only when the partial result is a match, so a
    /// recorded match is never cleared by a later non-match.
    pub fn record(&mut self, partial: bool)
        ensures
            final(self).is_set() == (old(self).is_set() || partial),
            old(self).is_set() ==> final(self).is_set(),
    {
        if partial {
            self.matched = true;
        }
    }

    /// Reads the accumulator, once every contributing unit of work has
    /// completed.
    pub fn read(&self) -> (r: bool)
        ensures
            r == self.is_set(),
    {
        self.matched
    }
}

/// The accumulator that `acc` becomes after recording each of `partials`,
/// in order.
pub closed spec fn recorded(acc: Accumulator, partials: Seq<bool>) -> Accumulator
    decreases partials.len(),
{
    if partials.len() == 0 {
        acc
    } else {
        recorded(Accumulator { matched: acc.matched || partials[0] }, partials.skip(1))
    }
}

/// A non-empty sequence holds a true element iff its head is true or its
/// tail holds one.
proof fn lemma_any_true_head(s: Seq<bool>)
    requires
        s.len() >= 1,
    ensures
        any_true(s) == (s[0] || any_true(s.skip(1))),
{
    if any_true(s.skip(1)) {
        let i = choose|i: int| 0 <= i < s.skip(1).len() && s.skip(1)[i];
        assert(s[i + 1]);
    }
    if any_true(s) && !s[0] {
        let i = choose|i: int| 0 <= i < s.len() && s[i];
        assert(s.skip(1)[i - 1]);
    }
}

/// Law: recording a sequence of partial results leaves the accumulator set
/// iff it was set before or some recorded partial result was a match.
pub proof fn lemma_recorded_is_or(acc: Accumulator, partials: Seq<bool>)
    ensures
        recorded(acc, partials).is_set() == (acc.is_set() || any_true(partials)),
    decreases partials.len(),
{
    if partials.len() == 0 {
    } else {
        lemma_recorded_is_or(
            Accumulator { matched: acc.matched || partials[0] },
            partials.skip(1),
        );
        lemma_any_true_head(partials);
    }
}

/// Law: the accumulator is monotonic within a query. Once any worker has
/// set it, no later sequence of recorded results can reset it to false.
pub proof fn lemma_accumulator_monotonic(acc: Accumulator, partials: Seq<bool>)
    requires
        acc.is_set(),
    ensures
        recorded(acc, partials).is_set(),
{
    lemma_recorded_is_or(acc, partials);
}

/// A sequence with a true element at `i` merges to true.
proof fn lemma_any_true_extended(s: Seq<bool>, b: bool)
    ensures
        any_true(s.push(b)) == (any_true(s) || b),
{
    if b {
        assert(s.push(b)[s.len() as int]);
    }
    if any_true(s) {
        let i = choose|i: int| 0 <= i < s.len() && s[i];
        assert(s.push(b)[i]);
    }
    if any_true(s.push(b)) {
        let i = choose|i: int| 0 <= i < s.push(b).len() && s.push(b)[i];
        if i < s.len() {
            assert(s[i]);
        }
    }
}

/// Result combiner: ORs all partial results of one query by recording each
/// into a fresh accumulator. It is called only once every contributing unit
/// of work has completed and handed its partial result over.
pub fn combine(results: &Vec<bool>) -> (r: bool)
    ensures
        r == any_true(results@),
{
    let mut acc = Accumulator::new();
    let mut i: usize = 0;
    while i < results.len()
        invariant
            i <= results@.len(),
            acc.is_set() == any_true(results@.take(i as int)),
        decreases results@.len() - i,
    {
        proof {
            assert(results@.take(i as int + 1) =~= results@.take(i as int).push(
                results@[i as int],
            ));
            lemma_any_true_extended(results@.take(i as int), results@[i as int]);
        }
        acc.record(results[i]);
        i = i + 1;
    }
    proof {
        assert(results@.take(results@.len() as int) =~= results@);
    }
    acc.read()
}

} // verus!
