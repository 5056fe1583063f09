//! Saucers, their two sizes and their timers.

use vstd::prelude::*;

verus! {

/// The size of a saucer.
#[derive(Clone, Copy, Debug, PartialEq, Eq, Structural)]
pub enum AlienSize {
    Big,
    Small,
}

impl AlienSize {
    /// The time a saucer of this size keeps one heading.
    pub open spec fn heading_span(self) -> u64 {
        match self {
            AlienSize::Big => 850_000,
            AlienSize::Small => 350_000,
        }
    }

    /// Computes [`AlienSize::heading_span`].
    pub fn direction_change_time(&self) -> (span: u64)
        ensures
            span == self.heading_span(),
    {
        match self {
            AlienSize::Big => 850_000,
            AlienSize::Small => 350_000,
        }
    }

    /// The time a saucer of this size lets pass between two shots.
    pub open spec fn reload_span(self) -> u64 {
        match self {
            AlienSize::Big => 1_250_000,
            AlienSize::Small => 750_000,
        }
    }

    /// Computes [`AlienSize::reload_span`].
    pub fn shoot_time(&self) -> (span: u64)
        ensures
            span == self.reload_span(),
    {
        match self {
            AlienSize::Big => 1_250_000,
            AlienSize::Small => 750_000,
        }
    }
}

/// A saucer as the rules see it.
#[derive(Clone, Copy, Debug, PartialEq, Eq, Structural)]
pub struct Alien {
    pub size: AlienSize,
    /// Set when the saucer has been destroyed; it leaves the session at the
    /// end of the frame.
    pub removed: bool,
    /// When the saucer last fired.
    pub last_shot: u64,
    /// When the saucer last chose a heading.
    pub last_direction: u64,
}

impl Default for Alien {
    /// A small saucer whose timers start at zero.
    fn default() -> (alien: Self)
        ensures
            alien == Alien::fresh(AlienSize::Small),
    {
        Self { size: AlienSize::Small, removed: false, last_shot: 0, last_direction: 0 }
    }
}

impl Alien {
    /// A saucer of size `size` that has just entered play.
    pub open spec fn fresh(size: AlienSize) -> Alien {
        Alien { size, removed: false, last_shot: 0, last_direction: 0 }
    }

    /// A saucer of size `size` whose timers start at zero, so that it picks a
    /// heading and fires as soon as its spans have passed on the session's
    /// clock.
    pub fn new(size: AlienSize) -> (alien: Self)
        ensures
            alien == Alien::fresh(size),
    {
        Self { size, removed: false, last_shot: 0, last_direction: 0 }
    }
}

/// The side of the arena at which a saucer enters.
#[derive(Clone, Copy, Debug, PartialEq, Eq, Structural)]
pub enum Edge {
    Left,
    Right,
}

impl Edge {
    /// The side that a toss of a coin picks: the left for heads, the right
    /// for tails.
    pub open spec fn side(heads: bool) -> Edge {
        if heads {
            Edge::Left
        } else {
            Edge::Right
        }
    }

    /// Computes [`Edge::side`].
    pub fn of_coin(heads: bool) -> (edge: Self)
        ensures
            edge == Edge::side(heads),
    {
        if heads {
            Edge::Left
        } else {
            Edge::Right
        }
    }
}

} // verus!
