//! The pseudo-random generator that places agents at construction.
use vstd::prelude::*;

verus! {

/// oorandom's 32-bit PCG generator, carried through as an opaque value.
#[verifier::external_type_specification]
#[verifier::external_body]
pub struct ExRand32(oorandom::Rand32);

/// Relies on oorandom::Rand32::new: builds a generator from any 64-bit seed,
/// without failing.
pub assume_specification[ oorandom::Rand32::new ](seed: u64) -> oorandom::Rand32;

/// The value that oorandom's `Rand32::rand_u32` returns at its `k`-th call
/// (counting from zero) on a generator made by `Rand32::new(seed)`.
pub uninterp spec fn rand32_draw(seed: u64, k: nat) -> u32;

/// A seeded generator that remembers, as ghost state, its seed and how many
/// values it has handed out.
pub struct Generator {
    rng: oorandom::Rand32,
    seed: Ghost<u64>,
    drawn: Ghost<nat>,
}

impl Generator {
    pub closed spec fn seed(&self) -> u64 {
        self.seed@
    }

    pub closed spec fn drawn(&self) -> nat {
        self.drawn@
    }

    pub fn new(seed: u64) -> (g: Generator)
        ensures
            g.seed() == seed,
            g.drawn() == 0,
    {
        Generator { rng: oorandom::Rand32::new(seed), seed: Ghost(seed), drawn: Ghost(0) }
    }

    /// Relies on oorandom::Rand32::rand_u32: the generator is a PCG, whose next
    /// value depends only on the seed it was made from and the number of values
    /// drawn before; it never fails.
    #[verifier::external_body]
    pub fn next_u32(&mut self) -> (r: u32)
        ensures
            r == rand32_draw(old(self).seed(), old(self).drawn()),
            final(self).seed() == old(self).seed(),
            final(self).drawn() == old(self).drawn() + 1,
    {
        self.rng.rand_u32()
    }
}

} // verus!
