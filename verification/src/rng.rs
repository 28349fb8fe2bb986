//! The random draws of a game, all taken from the game's own generator.

use vstd::prelude::*;
use rand::rngs::StdRng;
use rand::{Rng, RngCore, SeedableRng};

verus! {

/// `StdRng::seed_from_u64`: a generator seeded from `seed`. Nothing is
/// promised of the generator itself, which is opaque here.
#[verifier::external_body]
pub(crate) fn seeded(seed: u64) -> StdRng {
    StdRng::seed_from_u64(seed)
}

/// `Rng::gen_range(0..n)` on `usize`: a draw in `[0, n)`. The crate asserts
/// that the range is not empty, hence `n > 0`.
#[verifier::external_body]
pub(crate) fn below(rng: &mut StdRng, n: usize) -> (r: usize)
    requires n > 0,
    ensures r < n,
{
    rng.gen_range(0..n)
}

/// `Rng::gen_range(0..n)` on `u8`: a draw in `[0, n)`, `n > 0`.
#[verifier::external_body]
pub(crate) fn below_u8(rng: &mut StdRng, n: u8) -> (r: u8)
    requires n > 0,
    ensures r < n,
{
    rng.gen_range(0..n)
}

/// `Rng::gen_range(lo..=hi)` on `usize`: a draw in `[lo, hi]`. The crate
/// asserts that the range is not empty, hence `lo <= hi`.
#[verifier::external_body]
pub(crate) fn between(rng: &mut StdRng, lo: usize, hi: usize) -> (r: usize)
    requires lo <= hi,
    ensures lo <= r <= hi,
{
    rng.gen_range(lo..=hi)
}

/// A draw in `[0, n]`.
pub(crate) fn upto(rng: &mut StdRng, n: usize) -> (r: usize)
    ensures r <= n,
{
    between(rng, 0, n)
}

/// `Rng::gen_range(0..=max)` on `i64`: a draw in `[0, max]`, `max >= 0`.
#[verifier::external_body]
pub(crate) fn upto_i64(rng: &mut StdRng, max: i64) -> (r: i64)
    requires max >= 0,
    ensures 0 <= r <= max,
{
    rng.gen_range(0..=max)
}

/// `Rng::gen_ratio(num, den)`: true with probability `num / den`. The crate
/// panics unless `0 < den` and `num <= den`; it documents that `num == 0`
/// always gives false and `num == den` always gives true.
#[verifier::external_body]
pub(crate) fn ratio(rng: &mut StdRng, num: u32, den: u32) -> (r: bool)
    requires 0 < den, num <= den,
    ensures
        num == 0 ==> !r,
        num == den ==> r,
{
    rng.gen_ratio(num, den)
}

/// `RngCore::next_u64`: the next 64 random bits.
#[verifier::external_body]
pub(crate) fn next_u64(rng: &mut StdRng) -> u64 {
    rng.next_u64()
}

} // verus!
