use vstd::prelude::*;

verus! {

/// Relies on rand::Rng::gen_range over the thread-local generator: for a
/// non-empty range `0..bound` it returns a value drawn from that range, so
/// the result is always below `bound`.  On an empty range it panics, which
/// the precondition rules out.
#[verifier::external_body]
pub(crate) fn random_below(bound: u32) -> (r: u32)
    requires
        bound > 0,
    ensures
        r < bound,
{
    rand::Rng::gen_range(&mut rand::thread_rng(), 0..bound)
}

} // verus!
