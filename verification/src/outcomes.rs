//! Runs of outcomes, each a success or a failure with its reason, as the
//! caller reports what it found outside: the first failure decides.

use vstd::prelude::*;

verus! {

/// The first position at which an outcome is a failure.
pub open spec fn first_failure<T>(outcomes: Seq<Result<T, String>>) -> Option<int>
    decreases outcomes.len(),
{
    if outcomes.len() == 0 {
        None
    } else {
        match first_failure(outcomes.drop_last()) {
            Some(at) => Some(at),
            None => if outcomes.last() is Err {
                Some(outcomes.len() - 1)
            } else {
                None
            },
        }
    }
}

/// A failure found among the first `seen` outcomes is the first failure of all.
pub proof fn lemma_failure_stays<T>(outcomes: Seq<Result<T, String>>, seen: int)
    requires
        0 <= seen <= outcomes.len(),
        first_failure(outcomes.take(seen)) is Some,
    ensures
        first_failure(outcomes) == first_failure(outcomes.take(seen)),
    decreases outcomes.len() - seen,
{
    if seen < outcomes.len() {
        assert(outcomes.take(seen + 1).drop_last() == outcomes.take(seen));
        lemma_failure_stays(outcomes, seen + 1);
    } else {
        assert(outcomes.take(seen) == outcomes);
    }
}

} // verus!
