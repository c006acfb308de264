//! The source of chance: `rand`'s thread-local generator.
use rand::Rng;
use vstd::prelude::*;

verus! {

/// Draws a number from `0..bound` with `rand::thread_rng().gen_range`.
/// Claimed of the outside code: the number lies in that range. Nothing is
/// claimed about how it is distributed. `gen_range` panics on an empty range,
/// hence `bound > 0`.
#[verifier::external_body]
pub(crate) fn random_below(bound: u128) -> (r: u128)
    requires
        bound > 0,
    ensures
        r < bound,
{
    rand::thread_rng().gen_range(0..bound)
}

} // verus!
