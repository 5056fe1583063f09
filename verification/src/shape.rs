//! The outline of a rock, as far as it is counted in whole numbers.
//!
//! A rock's outline is a closed polygon that depends on the rock's seed and
//! on nothing else. Its corners are placed with random draws from a stream
//! that is made afresh from the seed whenever the outline is wanted; the
//! first draw of that stream says how many corners there are. This file makes
//! the stream and the first draw. The corners themselves are the caller's.

use vstd::prelude::*;
use rand_xoshiro::Xoshiro256StarStar;
use crate::random::{draw_between, drawn_between, outline_stream, stream_of};

verus! {

/// The fewest corners of an outline.
pub const FEWEST_CORNERS: i32 = 8;

/// One more than the most corners of an outline.
pub const CORNER_LIMIT: i32 = 15;

/// The start of an outline.
pub struct OutlinePlan {
    /// How many corners the outline has.
    pub corners: usize,
    /// The stream from which the corners are drawn, in order.
    pub random: Xoshiro256StarStar,
}

impl OutlinePlan {
    /// The start of an outline of `corners` corners whose stream is `random`.
    pub fn new(corners: i32, random: Xoshiro256StarStar) -> (plan: Self)
        requires
            FEWEST_CORNERS <= corners < CORNER_LIMIT,
        ensures
            plan.corners == corners,
            plan.random == random,
    {
        OutlinePlan { corners: corners as usize, random }
    }
}

/// The start of the outline of the rock with the seed `seed`: as many corners
/// as the first draw of the rock's stream says, and the stream as that draw
/// leaves it. It depends on the seed and on nothing else.
pub open spec fn planned(seed: u64) -> OutlinePlan {
    let first = drawn_between(stream_of(seed), FEWEST_CORNERS as int, CORNER_LIMIT as int);
    OutlinePlan { corners: first.0 as usize, random: first.1 }
}

/// Starts the outline of the rock with the seed `seed`: makes the rock's
/// stream from the seed and draws the number of corners from it, at least
/// [`FEWEST_CORNERS`] and fewer than [`CORNER_LIMIT`]. The plan is the one
/// that the seed fixes, whenever and however often it is asked for.
pub fn outline_plan(seed: u64) -> (plan: OutlinePlan)
    ensures
        plan == planned(seed),
        plan.corners == drawn_between(
            stream_of(seed),
            FEWEST_CORNERS as int,
            CORNER_LIMIT as int,
        ).0,
        FEWEST_CORNERS <= plan.corners < CORNER_LIMIT,
{
    let mut random = outline_stream(seed);
    let corners: i32 = draw_between(&mut random, FEWEST_CORNERS, CORNER_LIMIT);
    OutlinePlan::new(corners, random)
}

/// One seed, one outline: two plans that were made from the same seed have
/// the same number of corners and go on drawing from the same stream,
/// whenever they were made and whatever else was drawn between them.
pub proof fn law_outline_by_seed(first: OutlinePlan, second: OutlinePlan, seed: u64)
    requires
        first == planned(seed),
        second == planned(seed),
    ensures
        first == second,
        first.corners == second.corners,
        first.random == second.random,
{
}

} // verus!
