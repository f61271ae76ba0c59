//! The source of random bytes.

use vstd::prelude::*;
use rand::rngs::OsRng;
use rand::rngs::StdRng;
use rand::Rng;
use rand::SeedableRng;

verus! {

/// The generator of the `rand` crate, carried as an opaque value.
#[verifier::external_type_specification]
#[verifier::external_body]
pub struct ExStdRng(StdRng);

/// `StdRng::from_rng` on `OsRng`: a generator with a key that the operating
/// system hands out, or `None` where the operating system hands out none.
/// The call may wait while the operating system gathers its first entropy.
/// Nothing is claimed of the generator, nor of when there is one.
#[verifier::external_body]
pub(crate) fn entropy_source() -> Option<StdRng> {
    match StdRng::from_rng(OsRng) {
        Ok(source) => Some(source),
        Err(_) => None,
    }
}

/// The generator that `StdRng::seed_from_u64` makes from `seed`.
pub uninterp spec fn seeded(seed: u64) -> StdRng;

/// `StdRng::seed_from_u64`: a generator that starts from `seed`. The seed
/// alone decides the generator: the function spreads the seed over a key by a
/// fixed recurrence and starts the cipher of the generator from that key.
/// Nothing is claimed of the bytes that the generator hands out.
#[verifier::external_body]
pub(crate) fn seeded_source(seed: u64) -> (source: StdRng)
    ensures
        source == seeded(seed),
{
    StdRng::seed_from_u64(seed)
}

/// `Rng::gen_range` over all bytes: draws the next byte from `source`.
/// Nothing is claimed of the byte.
#[verifier::external_body]
pub(crate) fn next_byte(source: &mut StdRng) -> u8 {
    source.gen_range(0..=255)
}

} // verus!
