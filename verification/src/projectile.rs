//! Shots and their lifetime.

use vstd::prelude::*;
use crate::clock::{span, GRACE_WINDOW};

verus! {

/// Whether a shot still flies, and for how long.
#[derive(Clone, Copy, Debug, PartialEq, Eq, Structural)]
pub enum ProjectileState {
    Alive { time_to_live: u64 },
    Dead,
}

impl ProjectileState {
    /// The state of a shot with `time_to_live` left: spent when nothing is
    /// left.
    pub open spec fn with_lifetime(time_to_live: u64) -> ProjectileState {
        if time_to_live > 0 {
            ProjectileState::Alive { time_to_live }
        } else {
            ProjectileState::Dead
        }
    }

    /// The state after `delta` has passed.
    pub open spec fn aged(self, delta: u64) -> ProjectileState {
        match self {
            ProjectileState::Alive { time_to_live } => ProjectileState::with_lifetime(
                span(time_to_live, delta),
            ),
            ProjectileState::Dead => ProjectileState::Dead,
        }
    }

    /// Whether the shot can still hit something.
    pub open spec fn live(self) -> bool {
        self matches ProjectileState::Alive { time_to_live } && time_to_live > 0
    }
}

impl From<u64> for ProjectileState {
    /// The state of a shot with `value` left to live.
    fn from(value: u64) -> (state: Self) {
        if value > 0 {
            Self::Alive { time_to_live: value }
        } else {
            Self::Dead
        }
    }
}

impl vstd::std_specs::convert::FromSpecImpl<u64> for ProjectileState {
    open spec fn obeys_from_spec() -> bool {
        true
    }

    open spec fn from_spec(value: u64) -> Self {
        ProjectileState::with_lifetime(value)
    }
}

/// A shot as the rules see it.
#[derive(Clone, Copy, Debug, PartialEq, Eq, Structural)]
pub struct Projectile {
    pub state: ProjectileState,
    /// When the shot was fired.
    pub spawn: u64,
}

impl Projectile {
    /// A shot fired at `now` that lives for `lifetime`.
    pub open spec fn launched(now: u64, lifetime: u64) -> Projectile {
        Projectile { state: ProjectileState::with_lifetime(lifetime), spawn: now }
    }

    /// Whether the shot can still hit something.
    pub open spec fn live(self) -> bool {
        self.state.live()
    }

    /// Computes [`Projectile::live`].
    pub fn is_alive(self: &Self) -> (alive: bool)
        ensures
            alive == self.live(),
    {
        match self.state {
            ProjectileState::Dead => false,
            ProjectileState::Alive { time_to_live } => time_to_live > 0,
        }
    }

    /// Whether at `now` the shot has left the window in which it passes
    /// through saucers.
    pub open spec fn armed(self, now: u64) -> bool {
        span(now, self.spawn) >= GRACE_WINDOW
    }
}

} // verus!
