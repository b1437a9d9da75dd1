use vstd::prelude::*;

verus! {

/// Draws a number below `bound` from the thread's random generator.
///
/// Calls `fastrand::usize` with the range from zero up to, not including,
/// `bound`. That function panics on an empty range, so `bound` is not zero,
/// and it returns a member of the range. Which member is not stated: two
/// calls may differ.
#[verifier::external_body]
pub(crate) fn random_below(bound: usize) -> (drawn: usize)
    requires
        bound > 0,
    ensures
        drawn < bound,
{
    fastrand::usize(0..bound)
}

/// Restarts the thread's random generator from `seed`.
///
/// Calls `fastrand::seed`. The draws that follow are those of that seed;
/// nothing is stated of them here.
#[verifier::external_body]
pub(crate) fn seed_generator(seed: u64) {
    fastrand::seed(seed)
}

} // verus!
