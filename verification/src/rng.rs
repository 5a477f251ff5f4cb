//! The run's random stream: the `rand` crate behind trusted wrappers.
//!
//! One `StdRng` is created at startup — from an explicit seed for a
//! reproducible run, or from OS entropy — and is then shared by every shuffle
//! and color draw of the run.  Nothing is assumed about the values the stream
//! yields; each wrapper states only what holds of every outcome.

use vstd::prelude::*;

use crate::grid::Cell;

verus! {

#[verifier::external_type_specification]
#[verifier::external_body]
pub struct ExStdRng(rand::rngs::StdRng);

/// Relies on rand::SeedableRng::seed_from_u64: builds a generator from the
/// given seed.  Nothing is stated about the stream it yields.
#[verifier::external_body]
fn rng_from_seed(seed: u64) -> rand::rngs::StdRng {
    rand::SeedableRng::seed_from_u64(seed)
}

/// Relies on rand::SeedableRng::try_from_os_rng: builds a generator from OS
/// entropy, or reports that the OS entropy source failed.
#[verifier::external_body]
fn rng_from_os() -> Option<rand::rngs::StdRng> {
    match <rand::rngs::StdRng as rand::SeedableRng>::try_from_os_rng() {
        Ok(r) => Some(r),
        Err(_) => None,
    }
}

/// Creates the run's random number generator: seeded for a reproducible run
/// if a seed is given, from OS entropy otherwise.  With a seed, creation
/// always succeeds; without one it fails only if the OS entropy source does.
pub fn make_rng(seed: Option<u64>) -> (r: Option<rand::rngs::StdRng>)
    ensures
        seed is Some ==> r is Some,
{
    match seed {
        Some(s) => Some(rng_from_seed(s)),
        None => rng_from_os(),
    }
}

/// Relies on rand::Rng::random_range over `0..n`: returns a value of the
/// range, and panics only on an empty range, which the precondition rules
/// out.
#[verifier::external_body]
pub(crate) fn random_index(rng: &mut rand::rngs::StdRng, n: usize) -> (r: usize)
    requires
        n > 0,
    ensures
        r < n,
{
    rand::Rng::random_range(rng, 0..n)
}

/// Relies on rand::seq::SliceRandom::shuffle: permutes the slice in place
/// (a Fisher-Yates shuffle), so exactly the old elements remain, each as
/// often as before.
#[verifier::external_body]
pub(crate) fn shuffle_cells(cells: &mut Vec<Cell>, rng: &mut rand::rngs::StdRng)
    ensures
        final(cells)@.to_multiset() == old(cells)@.to_multiset(),
        final(cells)@.len() == old(cells)@.len(),
{
    rand::seq::SliceRandom::shuffle(cells.as_mut_slice(), rng);
}

} // verus!
