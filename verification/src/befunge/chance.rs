//! Where the machine's random choices come from.

use vstd::prelude::*;
use rand::rngs::ThreadRng;
use rand::seq::SliceRandom;
use crate::befunge::space::Direction;

verus! {

/// The handle to the thread's random number generator of the crate `rand`.
/// Nothing is known of what is inside it.
#[verifier::external_type_specification]
#[verifier::external_body]
pub struct ExThreadRng(ThreadRng);

/// `rand::thread_rng` hands out the handle to the generator of the current
/// thread, which the system seeds. Nothing is claimed of the handle.
pub assume_specification[ rand::thread_rng ]() -> (rng: ThreadRng)
;

/// Draws one of `options` by `SliceRandom::choose` of the crate `rand`. For
/// a slice that is not empty that function returns one of its elements;
/// which one is left to chance, so nothing more is claimed here.
#[verifier::external_body]
pub(crate) fn choose_one(options: &Vec<Direction>, rng: &mut ThreadRng) -> (r: Direction)
    requires
        options@.len() > 0,
    ensures
        options@.contains(r),
{
    *options.choose(rng).unwrap()
}

} // verus!
