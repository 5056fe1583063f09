//! Units and spans of simulated time.

use vstd::prelude::*;

verus! {

/// One second, in the microseconds that every time value of the crate counts.
pub const SECOND: u64 = 1_000_000;

/// How long a destroyed ship stays out of play.
pub const REVIVE_DELAY: u64 = 3_000_000;

/// How long after its launch a shot passes through saucers.
pub const GRACE_WINDOW: u64 = 150_000;

/// Lifetime of a shot fired by the ship.
pub const SHIP_SHOT_LIFETIME: u64 = 1_000_000;

/// Lifetime of a shot fired by a saucer.
pub const ALIEN_SHOT_LIFETIME: u64 = 2_000_000;

/// How long the thruster plume stays lit or dark while it flickers.
pub const FLICKER: u64 = 100_000;

/// The time from `earlier` to `now`, and zero where `earlier` lies ahead.
pub open spec fn span(now: u64, earlier: u64) -> u64 {
    if now >= earlier {
        (now - earlier) as u64
    } else {
        0
    }
}

/// Computes [`span`].
pub fn elapsed(now: u64, earlier: u64) -> (gone: u64)
    ensures
        gone == span(now, earlier),
{
    now.saturating_sub(earlier)
}

/// A span in seconds, rounded to the nearest one, a half rounding up.
pub open spec fn rounded_seconds(span: u64) -> nat {
    if span % SECOND >= SECOND / 2 {
        (span / SECOND + 1) as nat
    } else {
        (span / SECOND) as nat
    }
}

/// Computes [`rounded_seconds`].
pub fn whole_seconds(span: u64) -> (seconds: u64)
    ensures
        seconds == rounded_seconds(span),
{
    let floor: u64 = span / SECOND;
    if span % SECOND >= SECOND / 2 {
        floor + 1
    } else {
        floor
    }
}

/// Whether the thruster plume shows at `now`. The plume flickers: it is lit
/// while the time in tenths of a second, rounded to the nearest, is even.
pub open spec fn plume_lit(now: u64) -> bool {
    if now % FLICKER >= FLICKER / 2 {
        (now / FLICKER + 1) % 2 == 0
    } else {
        (now / FLICKER) % 2 == 0
    }
}

/// Computes [`plume_lit`].
pub fn plume_shows(now: u64) -> (lit: bool)
    ensures
        lit == plume_lit(now),
{
    let tenth: u64 = now / FLICKER;
    if now % FLICKER >= FLICKER / 2 {
        (tenth + 1) % 2 == 0
    } else {
        tenth % 2 == 0
    }
}

} // verus!
