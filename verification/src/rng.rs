//! The pseudo-random source.
//!
//! Sampling is driven by a ChaCha stream cipher generator. Its output is a
//! pure, machine-independent function of the seed it was built from, so the
//! state of a generator is modelled by the seed together with the number of
//! values drawn so far, and `chacha_u64(seed, pos)` names the value the
//! generator yields at a given position. Every function that consumes
//! randomness states its result as a function of the seed and the position,
//! which is what makes a whole render reproducible from its seed.

use crate::fixed::FX_ONE;
use vstd::prelude::*;

verus! {

#[verifier::external_type_specification]
#[verifier::external_body]
pub struct ExChaCha12Rng(rand_chacha::ChaCha12Rng);

/// The seed a generator was built from.
pub uninterp spec fn rng_seed(r: rand_chacha::ChaCha12Rng) -> u64;

/// How many values the generator has yielded so far.
pub uninterp spec fn rng_pos(r: rand_chacha::ChaCha12Rng) -> nat;

/// The value the ChaCha stream seeded with `seed` yields at position `pos`.
/// The stream depends on the seed alone, in every process and on every
/// machine.
pub uninterp spec fn chacha_u64(seed: u64, pos: nat) -> u64;

/// Relies on `SeedableRng::seed_from_u64` for `ChaCha12Rng`: a documented,
/// value-stable pure function from the seed to the generator state, which
/// never panics.
#[verifier::external_body]
fn chacha_from_seed(seed: u64) -> (r: rand_chacha::ChaCha12Rng)
    ensures
        rng_seed(r) == seed,
        rng_pos(r) == 0,
{
    <rand_chacha::ChaCha12Rng as rand::SeedableRng>::seed_from_u64(seed)
}

/// Relies on `Rng::next_u64` for `ChaCha12Rng`: the stream of values is a
/// pure, machine-independent function of the seeded state (the crate
/// documents the generator as a portable, reproducible stream); each call
/// yields the value at the current position, advances the state by one
/// position, and never panics.
#[verifier::external_body]
fn chacha_next_u64(r: &mut rand_chacha::ChaCha12Rng) -> (v: u64)
    ensures
        v == chacha_u64(rng_seed(*old(r)), rng_pos(*old(r))),
        rng_seed(*final(r)) == rng_seed(*old(r)),
        rng_pos(*final(r)) == rng_pos(*old(r)) + 1,
{
    rand::Rng::next_u64(r)
}

/// The top 16 bits of a draw, as a fixed-point sample in `[0, 1)`.
pub open spec fn unit_sample(w: u64) -> int {
    (w >> 48) as int
}

/// A draw mapped to a fixed-point sample in `[-1, 1)`.
pub open spec fn sym_sample(w: u64) -> int {
    2 * unit_sample(w) - FX_ONE as int
}

proof fn lemma_unit_sample_range(w: u64)
    ensures
        0 <= unit_sample(w) < FX_ONE as int,
{
    assert((w >> 48) < 65536) by (bit_vector);
}

/// A seeded pseudo-random source.
pub struct Rng {
    inner: rand_chacha::ChaCha12Rng,
}

impl Rng {
    /// The seed this source was built from.
    pub closed spec fn seed(self) -> u64 {
        rng_seed(self.inner)
    }

    /// How many values have been drawn from this source.
    pub closed spec fn pos(self) -> nat {
        rng_pos(self.inner)
    }

    /// Build a source from a seed.
    pub fn new(seed: u64) -> (r: Rng)
        ensures
            r.seed() == seed,
            r.pos() == 0,
    {
        Rng { inner: chacha_from_seed(seed) }
    }

    /// Draw the next raw value of the stream.
    pub fn next_u64(&mut self) -> (v: u64)
        ensures
            v == chacha_u64(old(self).seed(), old(self).pos()),
            final(self).seed() == old(self).seed(),
            final(self).pos() == old(self).pos() + 1,
    {
        chacha_next_u64(&mut self.inner)
    }

    /// Draw a fixed-point sample uniform in `[0, 1)`.
    pub fn next_unit(&mut self) -> (v: i64)
        ensures
            v as int == unit_sample(chacha_u64(old(self).seed(), old(self).pos())),
            0 <= v < FX_ONE,
            final(self).seed() == old(self).seed(),
            final(self).pos() == old(self).pos() + 1,
    {
        let w = self.next_u64();
        proof {
            lemma_unit_sample_range(w);
        }
        (w >> 48) as i64
    }

    /// Draw a fixed-point sample uniform in `[-1, 1)`.
    pub fn next_sym(&mut self) -> (v: i64)
        ensures
            v as int == sym_sample(chacha_u64(old(self).seed(), old(self).pos())),
            -FX_ONE <= v < FX_ONE,
            final(self).seed() == old(self).seed(),
            final(self).pos() == old(self).pos() + 1,
    {
        let u = self.next_unit();
        2 * u - FX_ONE
    }
}

} // verus!
