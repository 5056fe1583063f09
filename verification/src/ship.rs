//! The player's ship: alive, or destroyed and waiting to come back.

use vstd::prelude::*;
use crate::clock::REVIVE_DELAY;

verus! {

/// When a ship was destroyed and when it may return.
#[derive(Clone, Copy, Debug, PartialEq, Eq, Structural)]
pub struct DeathTime {
    /// The moment after which the ship returns.
    pub death_timer: u64,
    /// The moment of destruction.
    pub death_time: u64,
}

impl DeathTime {
    /// The record of a destruction at `time`.
    pub open spec fn at(time: u64) -> DeathTime {
        DeathTime { death_timer: (time + REVIVE_DELAY) as u64, death_time: time }
    }

    /// Records a destruction at `time`; the ship returns once
    /// [`REVIVE_DELAY`] has passed.
    pub fn new(time: u64) -> (record: Self)
        requires
            time + REVIVE_DELAY <= u64::MAX,
        ensures
            record == DeathTime::at(time),
            record.death_time == time,
            record.death_timer == time + REVIVE_DELAY,
    {
        Self { death_timer: time + REVIVE_DELAY, death_time: time }
    }
}

/// Whether the ship is in play.
#[derive(Clone, Copy, Debug, PartialEq, Eq, Structural)]
pub enum ShipStatus {
    Alive,
    Dead(DeathTime),
}

impl ShipStatus {
    /// Whether the ship is in play.
    pub open spec fn alive(self) -> bool {
        self is Alive
    }

    /// Computes [`ShipStatus::alive`].
    pub fn is_alive(&self) -> (alive: bool)
        ensures
            alive == self.alive(),
    {
        match self {
            ShipStatus::Alive => true,
            ShipStatus::Dead(_) => false,
        }
    }

    /// The status after a collision at `now`: a ship in play is destroyed,
    /// one already destroyed keeps its record.
    pub open spec fn struck(self, now: u64) -> ShipStatus {
        if self.alive() {
            ShipStatus::Dead(DeathTime::at(now))
        } else {
            self
        }
    }
}

/// The ship as the rules see it.
#[derive(Clone, Copy, Debug, PartialEq, Eq, Structural)]
pub struct Ship {
    pub status: ShipStatus,
}

impl Default for Ship {
    /// A ship in play.
    fn default() -> (ship: Self)
        ensures
            ship == (Ship { status: ShipStatus::Alive }),
    {
        Self { status: ShipStatus::Alive }
    }
}

} // verus!
