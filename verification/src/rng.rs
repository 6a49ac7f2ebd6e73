//! The random number generator of a run and the draws the game makes from it.

use rand::seq::SliceRandom;
use rand::Rng;
use rand::SeedableRng;
use rand_chacha::ChaCha8Rng;
use vstd::prelude::*;

verus! {

/// The seeded generator that drives a run.
#[verifier::external_type_specification]
#[verifier::external_body]
pub struct ExChaCha8Rng(ChaCha8Rng);

/// `Rng::gen_range` over the inclusive range `lo..=hi` of `usize`: the draw
/// lies in that range (the call panics on an empty range, hence `lo <= hi`).
#[verifier::external_body]
pub(crate) fn gen_range_usize(rng: &mut ChaCha8Rng, lo: usize, hi: usize) -> (r: usize)
    requires
        lo <= hi,
    ensures
        lo <= r <= hi,
{
    rng.gen_range(lo..=hi)
}

/// `Rng::gen_range` over the inclusive range `lo..=hi` of `u8`.
#[verifier::external_body]
pub(crate) fn gen_range_u8(rng: &mut ChaCha8Rng, lo: u8, hi: u8) -> (r: u8)
    requires
        lo <= hi,
    ensures
        lo <= r <= hi,
{
    rng.gen_range(lo..=hi)
}

/// `Rng::gen_range` over the inclusive range `lo..=hi` of `i32`.
#[verifier::external_body]
pub(crate) fn gen_range_i32(rng: &mut ChaCha8Rng, lo: i32, hi: i32) -> (r: i32)
    requires
        lo <= hi,
    ensures
        lo <= r <= hi,
{
    rng.gen_range(lo..=hi)
}

/// `Rng::gen_ratio`: `true` with chance `numerator` in `denominator`. Its
/// documentation promises `true` when the two are equal and `false` when the
/// numerator is zero; it panics when the denominator is zero or smaller than
/// the numerator. Which value comes back otherwise is left open.
#[verifier::external_body]
pub(crate) fn gen_ratio(rng: &mut ChaCha8Rng, numerator: u32, denominator: u32) -> (r: bool)
    requires
        0 < denominator,
        numerator <= denominator,
    ensures
        numerator == denominator ==> r,
        numerator == 0 ==> !r,
{
    rng.gen_ratio(numerator, denominator)
}

/// `SliceRandom::choose`: `None` exactly on an empty slice, otherwise one of
/// its items; which one is left open.
#[verifier::external_body]
pub(crate) fn choose_one<'a, T>(rng: &mut ChaCha8Rng, items: &'a [T]) -> (r: Option<&'a T>)
    ensures
        r is None <==> items@.len() == 0,
        r is Some ==> exists|i: int| 0 <= i < items@.len() && items@[i] == *r->0,
{
    items.choose(rng)
}

/// `SliceRandom::shuffle`: the vector afterwards holds the same items, each
/// as often as before, in an order that is left open.
#[verifier::external_body]
pub(crate) fn shuffle<T>(rng: &mut ChaCha8Rng, items: &mut Vec<T>)
    ensures
        final(items)@.to_multiset() == old(items)@.to_multiset(),
{
    items.shuffle(rng)
}

/// `SeedableRng::seed_from_u64`: the generator a saved seed stands for. Its
/// state is opaque here, so the contract says nothing of it.
#[verifier::external_body]
pub(crate) fn rng_from_seed(seed: u64) -> ChaCha8Rng {
    ChaCha8Rng::seed_from_u64(seed)
}

} // verus!
