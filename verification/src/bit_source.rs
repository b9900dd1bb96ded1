use crate::preset::RngAlgorithm;
use rand::RngCore;
use rand::SeedableRng;
use rand_chacha::ChaCha20Rng;
use rand_hc::Hc128Rng;
use vstd::prelude::*;

verus! {

/// `rand_chacha::ChaCha20Rng`, carried through as an opaque value.
#[verifier::external_type_specification]
#[verifier::external_body]
pub struct ExChaCha20Rng(ChaCha20Rng);

/// `rand_hc::Hc128Rng`, carried through as an opaque value.
#[verifier::external_type_specification]
#[verifier::external_body]
pub struct ExHc128Rng(Hc128Rng);

/// The word that the `index`-th call of `next_u32` returns on a `ChaCha20Rng`
/// freshly made by `from_seed(seed)`, counting from zero.
pub uninterp spec fn chacha20_word(seed: Seq<u8>, index: nat) -> u32;

/// The word that `rng` will return from `next_u32` after `ahead` earlier calls
/// of `next_u32`.
pub uninterp spec fn chacha20_upcoming(rng: ChaCha20Rng, ahead: nat) -> u32;

/// The word that the `index`-th call of `next_u32` returns on an `Hc128Rng`
/// freshly made by `from_seed(seed)`, counting from zero.
pub uninterp spec fn hc128_word(seed: Seq<u8>, index: nat) -> u32;

/// The word that `rng` will return from `next_u32` after `ahead` earlier calls
/// of `next_u32`.
pub uninterp spec fn hc128_upcoming(rng: Hc128Rng, ahead: nat) -> u32;

/// `<ChaCha20Rng as SeedableRng>::from_seed`. The generator is a pure function
/// of its 32-byte seed: block counter and stream id start at zero, so the
/// words it is going to return are those that the seed alone determines.
#[verifier::external_body]
fn chacha20_from_seed(seed: [u8; 32]) -> (rng: ChaCha20Rng)
    ensures
        forall|k: nat| #[trigger] chacha20_upcoming(rng, k) == chacha20_word(seed@, k),
{
    ChaCha20Rng::from_seed(seed)
}

/// `<ChaCha20Rng as RngCore>::next_u32`. Returns the next word of the stream
/// and moves the generator one word on; every later word stays what it was
/// going to be.
#[verifier::external_body]
fn chacha20_next_u32(rng: &mut ChaCha20Rng) -> (word: u32)
    ensures
        word == chacha20_upcoming(*old(rng), 0),
        forall|k: nat| #[trigger]
            chacha20_upcoming(*final(rng), k) == chacha20_upcoming(*old(rng), k + 1),
{
    rng.next_u32()
}

/// `<Hc128Rng as SeedableRng>::from_seed`. The generator is a pure function of
/// its 32-byte seed (key and initialisation vector), so the words it is going
/// to return are those that the seed alone determines.
#[verifier::external_body]
fn hc128_from_seed(seed: [u8; 32]) -> (rng: Hc128Rng)
    ensures
        forall|k: nat| #[trigger] hc128_upcoming(rng, k) == hc128_word(seed@, k),
{
    Hc128Rng::from_seed(seed)
}

/// `<Hc128Rng as RngCore>::next_u32`. Returns the next word of the stream and
/// moves the generator one word on; every later word stays what it was going
/// to be.
#[verifier::external_body]
fn hc128_next_u32(rng: &mut Hc128Rng) -> (word: u32)
    ensures
        word == hc128_upcoming(*old(rng), 0),
        forall|k: nat| #[trigger]
            hc128_upcoming(*final(rng), k) == hc128_upcoming(*old(rng), k + 1),
{
    rng.next_u32()
}

/// The word at position `index` of the stream that `algorithm` produces from
/// `seed`.
pub open spec fn seeded_word(algorithm: RngAlgorithm, seed: Seq<u8>, index: nat) -> u32 {
    match algorithm {
        RngAlgorithm::ChaCha20 => chacha20_word(seed, index),
        RngAlgorithm::Hc128 => hc128_word(seed, index),
    }
}

/// The whole stream that `algorithm` produces from `seed`.
pub open spec fn seeded_stream(algorithm: RngAlgorithm, seed: Seq<u8>) -> spec_fn(nat) -> u32 {
    |index: nat| seeded_word(algorithm, seed, index)
}

/// A seeded generator of 32-bit words. Its only capability is to hand out the
/// next word; which generator family stands behind it does not show.
pub enum BitSource {
    ChaCha20(ChaCha20Rng),
    Hc128(Hc128Rng),
}

impl BitSource {
    /// The word this source returns after `ahead` earlier draws.
    pub open spec fn upcoming(&self, ahead: nat) -> u32 {
        match self {
            BitSource::ChaCha20(rng) => chacha20_upcoming(*rng, ahead),
            BitSource::Hc128(rng) => hc128_upcoming(*rng, ahead),
        }
    }

    /// All the words this source is going to return, by number of earlier draws.
    pub open spec fn stream(&self) -> spec_fn(nat) -> u32 {
        |ahead: nat| self.upcoming(ahead)
    }

    /// This source is `earlier` after `drawn` words have been taken from it.
    pub open spec fn follows(&self, earlier: BitSource, drawn: nat) -> bool {
        forall|k: nat| #[trigger] self.upcoming(k) == earlier.upcoming(k + drawn)
    }

    /// This source is at the start of the stream that `algorithm` produces
    /// from `seed`.
    pub open spec fn seeded_with(&self, algorithm: RngAlgorithm, seed: Seq<u8>) -> bool {
        forall|k: nat| #[trigger] self.upcoming(k) == seeded_word(algorithm, seed, k)
    }

    /// Draws the next word.
    pub fn next_u32(&mut self) -> (word: u32)
        ensures
            word == old(self).upcoming(0),
            final(self).follows(*old(self), 1),
    {
        match self {
            BitSource::ChaCha20(rng) => chacha20_next_u32(rng),
            BitSource::Hc128(rng) => hc128_next_u32(rng),
        }
    }
}

/// Seeds the generator that `rng_algorithm` names with the master seed.
pub fn create_rng_from_seed(seed: [u8; 32], rng_algorithm: &RngAlgorithm) -> (source: BitSource)
    ensures
        source.seeded_with(*rng_algorithm, seed@),
{
    match rng_algorithm {
        RngAlgorithm::ChaCha20 => BitSource::ChaCha20(chacha20_from_seed(seed)),
        RngAlgorithm::Hc128 => BitSource::Hc128(hc128_from_seed(seed)),
    }
}

} // verus!
