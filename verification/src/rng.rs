use vstd::prelude::*;

verus! {

/// Relies on rand's `Rng::gen_range` on the range `0..bound`: it panics on an
/// empty range and otherwise returns a uniformly drawn value in the range,
/// strictly below `bound`.  Nothing more is assumed of a random draw.
#[verifier::external_body]
pub(crate) fn random_below(bound: usize) -> (r: usize)
    requires
        bound > 0,
    ensures
        r < bound,
{
    rand::Rng::gen_range(&mut rand::thread_rng(), 0..bound)
}

} // verus!
