//! The pseudo-random streams of the game, which the `rand` and
//! `rand_xoshiro` crates provide.
//!
//! Nothing in this file is proved. Each function hands one call to the
//! outside crate, and Verus takes its contract on trust.
//!
//! The generators are deterministic: a stream is fixed by the seed it was
//! made from, and a draw by the state of the stream it is taken from. The
//! file gives these facts names, one for each outside function, so that the
//! contracts of the crate can say which draws a result comes from and where
//! they leave the stream. What the names stand for is the outside crates'
//! arithmetic, which is written out nowhere here.

use vstd::prelude::*;
use rand::Rng;
use rand_xoshiro::rand_core::SeedableRng;
use rand_xoshiro::Xoshiro256PlusPlus;
use rand_xoshiro::Xoshiro256StarStar;

verus! {

/// The generator behind the session's gameplay draws. Its state is opaque to
/// the verifier.
#[verifier::external_type_specification]
#[verifier::external_body]
pub struct ExXoshiro256PlusPlus(Xoshiro256PlusPlus);

/// The generator behind a rock's outline. Its state is opaque to the
/// verifier.
#[verifier::external_type_specification]
#[verifier::external_body]
pub struct ExXoshiro256StarStar(Xoshiro256StarStar);

/// The generator that `Xoshiro256PlusPlus::seed_from_u64` makes from `seed`.
pub uninterp spec fn gameplay_stream_of(seed: u64) -> Xoshiro256PlusPlus;

/// What `Rng::gen::<u64>` gives on the generator `random`: the value that it
/// returns, and the generator as the draw leaves it.
pub uninterp spec fn drawn_seed(random: Xoshiro256PlusPlus) -> (u64, Xoshiro256PlusPlus);

/// What `Rng::gen::<bool>` gives on the generator `random`: the value that it
/// returns, and the generator as the draw leaves it.
pub uninterp spec fn drawn_coin(random: Xoshiro256PlusPlus) -> (bool, Xoshiro256PlusPlus);

/// Calls `Xoshiro256PlusPlus::seed_from_u64`, which fills the generator's
/// state from `seed` by fixed arithmetic. The contract claims that much and
/// no more: the generator that comes back is the one that the seed fixes.
#[verifier::external_body]
pub(crate) fn gameplay_stream(seed: u64) -> (random: Xoshiro256PlusPlus)
    ensures
        random == gameplay_stream_of(seed),
{
    Xoshiro256PlusPlus::seed_from_u64(seed)
}

/// The generator that `Xoshiro256StarStar::seed_from_u64` makes from `seed`.
pub uninterp spec fn stream_of(seed: u64) -> Xoshiro256StarStar;

/// What `Rng::gen_range` gives on the generator `random` for the half-open
/// range from `low` to `high`: the value that it returns, and the generator
/// as the draw leaves it.
pub uninterp spec fn drawn_between(random: Xoshiro256StarStar, low: int, high: int) -> (
    int,
    Xoshiro256StarStar,
);

/// Calls `Xoshiro256StarStar::seed_from_u64`, which fills the generator's
/// state from `seed` by fixed arithmetic. The contract claims that much and
/// no more: the generator that comes back is the one that the seed fixes.
#[verifier::external_body]
pub(crate) fn outline_stream(seed: u64) -> (random: Xoshiro256StarStar)
    ensures
        random == stream_of(seed),
{
    Xoshiro256StarStar::seed_from_u64(seed)
}

/// Calls `Rng::gen::<u64>` on the gameplay generator, which takes the next
/// output of the generator and steps it on. Any value may come back; the
/// contract claims only that the value and the generator after the draw are
/// what the generator before it fixes.
#[verifier::external_body]
pub(crate) fn draw_seed(random: &mut Xoshiro256PlusPlus) -> (seed: u64)
    ensures
        seed == drawn_seed(*old(random)).0,
        *final(random) == drawn_seed(*old(random)).1,
{
    random.gen::<u64>()
}

/// Calls `Rng::gen::<bool>` on the gameplay generator, which tests one bit of
/// the generator's next output and steps it on. Either value may come back;
/// the contract claims only that the value and the generator after the draw
/// are what the generator before it fixes.
#[verifier::external_body]
pub(crate) fn draw_coin(random: &mut Xoshiro256PlusPlus) -> (heads: bool)
    ensures
        heads == drawn_coin(*old(random)).0,
        *final(random) == drawn_coin(*old(random)).1,
{
    random.gen::<bool>()
}

/// Calls `Rng::gen_range` on an outline generator with the half-open range
/// from `low` to `high`. The crate documents that the value lies in the range
/// and that an empty range panics, which the precondition rules out. The
/// value and the generator after the draw are computed from the generator
/// before it and the range by fixed arithmetic, and the contract says of them
/// that they are what that generator and that range fix.
#[verifier::external_body]
pub(crate) fn draw_between(random: &mut Xoshiro256StarStar, low: i32, high: i32) -> (value: i32)
    requires
        low < high,
    ensures
        low <= value < high,
        value == drawn_between(*old(random), low as int, high as int).0,
        *final(random) == drawn_between(*old(random), low as int, high as int).1,
{
    random.gen_range(low..high)
}

} // verus!
