//! The game's source of randomness: a seeded generator of the `rand` crate,
//! and the one random choice that the enemies make with it.
//!
//! Nothing here is proved. Verus takes the generator as an opaque value and
//! believes what the two functions below state of the `rand` crate.

use crate::geometry::Direction;
use rand::rngs::StdRng;
use rand::seq::SliceRandom;
use rand::SeedableRng;
use vstd::prelude::*;

verus! {

/// `rand::rngs::StdRng`, the generator that a game draws from. Verus sees
/// nothing of its state.
#[verifier::external_type_specification]
#[verifier::external_body]
pub struct ExStdRng(rand::rngs::StdRng);

/// The generator that `rand::SeedableRng::seed_from_u64` makes of a seed. The
/// call computes it from the seed alone, so the same seed gives the same
/// generator; what state that is takes the `rand` crate to say.
pub uninterp spec fn generator_seeded_with(seed: u64) -> StdRng;

/// Calls `rand::SeedableRng::seed_from_u64` for `StdRng`. The generator that
/// comes back is the one that the seed stands for.
#[verifier::external_body]
pub(crate) fn seeded_generator(seed: u64) -> (rng: StdRng)
    ensures
        rng == generator_seeded_with(seed),
{
    StdRng::seed_from_u64(seed)
}

/// Calls `rand::seq::SliceRandom::choose` on the given directions.
///
/// As `rand` documents and implements it, the call returns `None` for an
/// empty slice, without touching the generator, and otherwise one element of
/// the slice. Which element is not stated: it depends on the generator's
/// state, which the call then advances.
#[verifier::external_body]
pub(crate) fn choose_direction(options: &Vec<Direction>, rng: &mut StdRng) -> (choice: Option<
    Direction,
>)
    ensures
        options@.len() == 0 ==> choice is None,
        options@.len() == 0 ==> *final(rng) == *old(rng),
        options@.len() > 0 ==> choice is Some && options@.contains(choice->0),
{
    options.choose(rng).copied()
}

} // verus!
