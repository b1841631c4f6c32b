//! The calls into the random number generator. Nothing here is proved: each
//! contract says what the generator's crate documents of the call, and only what
//! holds whatever the generator draws.

use rand::rngs::ThreadRng;
use rand::seq::SliceRandom;
use rand::Rng;
use vstd::prelude::*;

verus! {

/// `rand::rngs::ThreadRng`, the generator that each thread keeps for itself. Its
/// state is not visible here.
#[verifier::external_type_specification]
#[verifier::external_body]
pub struct ExThreadRng(ThreadRng);

/// `rand::rng`: a handle to the generator of the current thread. Nothing is claimed
/// of it. The first call in a thread seeds the generator from the operating system
/// and panics if that fails; no argument has a say in this.
#[verifier::external_body]
pub(crate) fn thread_rng() -> ThreadRng {
    rand::rng()
}

/// `Rng::random_range` on the range from 0 up to, and without, `bound`: the number
/// drawn lies in that range. The call panics on an empty range, so `bound` must be
/// positive. Which number comes is left open.
#[verifier::external_body]
pub(crate) fn random_below(rng: &mut ThreadRng, bound: i32) -> (n: i32)
    requires
        bound > 0,
    ensures
        0 <= n < bound,
{
    rng.random_range(0..bound)
}

/// `SliceRandom::shuffle` on the vector's slice: the items only change places, so
/// the vector holds the same items as before, each as often as before. In which
/// order is left open.
#[verifier::external_body]
pub(crate) fn shuffle(moves: &mut Vec<(i32, i32)>, rng: &mut ThreadRng)
    ensures
        final(moves)@.to_multiset() == old(moves)@.to_multiset(),
{
    moves.shuffle(rng)
}

} // verus!
