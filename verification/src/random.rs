//! The random generator that engines own, and the one thing they do with it.

use rand::rngs::StdRng;
use rand::seq::SliceRandom;
use rand::SeedableRng;
use vstd::prelude::*;

verus! {

/// `rand::rngs::StdRng`, the generator that an engine owns. The proofs carry
/// it through and see nothing inside it.
#[verifier::external_type_specification]
#[verifier::external_body]
pub struct ExStdRng(rand::rngs::StdRng);

/// Calls `rand::SeedableRng::seed_from_u64` for `StdRng`, which makes a
/// generator from any seed. Nothing is claimed of the generator that comes
/// back.
#[verifier::external_body]
pub(crate) fn seeded(seed: u64) -> (rng: StdRng) {
    StdRng::seed_from_u64(seed)
}

/// Calls `rand::seq::SliceRandom::shuffle` on `items`. The call only swaps
/// items with each other, so whatever numbers the generator yields, the items
/// afterwards are the items before, each as often as before. In which order
/// they stand is not claimed.
#[verifier::external_body]
pub(crate) fn shuffle<T>(items: &mut [T], rng: &mut StdRng)
    ensures
        final(items)@.to_multiset() == old(items)@.to_multiset(),
{
    items.shuffle(rng);
}

} // verus!
