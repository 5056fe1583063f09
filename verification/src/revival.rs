//! Losing the ship, losing a life, losing the game.

use vstd::prelude::*;
use crate::rock::{fresh_rocks, RockSize};
use crate::ship::{Ship, ShipStatus};
use crate::state::{Session, State, STARTING_LIVES};
use crate::wave::{reset_rocks, wave_drawn, wave_size};

verus! {

/// What became of a destroyed ship in a frame.
#[derive(Clone, Copy, Debug, PartialEq, Eq, Structural)]
pub struct Revival {
    /// The ship was destroyed in this very frame: it leaves its burst of
    /// debris and the explosion sounds.
    pub ship_destroyed: bool,
    /// The ship came back into play, at the centre of the arena and at rest.
    pub respawned: bool,
    /// No life was left for the ship to come back with, and the game began
    /// anew: the rocks are gone and a wave is due.
    pub game_reset: bool,
}

impl Session {
    /// The session at the start of a game: three lives in reserve, no score,
    /// a ship in play, the rocks cleared for the first wave, whose clock
    /// starts at the session's time.
    pub open spec fn game_reset(self) -> Session {
        Session {
            lifes: STARTING_LIVES as nat,
            score: 0,
            ship: Ship { status: ShipStatus::Alive },
            rocks: Seq::empty(),
            stage_start: self.now,
            ..self
        }
    }

    /// Whether the ship is destroyed with no life left to replace it.
    pub open spec fn out_of_lives(self) -> bool {
        !self.ship.status.alive() && self.lifes == 0
    }

    /// The session after the ship was put back into play: a destroyed ship
    /// costs a life, or the game where none is left.
    pub open spec fn level_reset(self) -> Session {
        if self.ship.status.alive() {
            self
        } else if self.lifes == 0 {
            self.game_reset()
        } else {
            Session {
                lifes: (self.lifes - 1) as nat,
                ship: Ship { status: ShipStatus::Alive },
                ..self
            }
        }
    }

    /// Whether the ship was destroyed at the session's present time.
    pub open spec fn wreck_fresh(self) -> bool {
        self.ship.status matches ShipStatus::Dead(record) && record.death_time == self.now
    }

    /// Whether a destroyed ship has waited out its delay.
    pub open spec fn revive_due(self) -> bool {
        self.ship.status matches ShipStatus::Dead(record) && self.now > record.death_timer
    }

    /// The session after a destroyed ship whose delay has passed came back.
    pub open spec fn revived(self) -> Session {
        if self.revive_due() {
            self.level_reset()
        } else {
            self
        }
    }

    /// What the frame reports of the ship's destruction and return.
    pub open spec fn revival(self) -> Revival {
        Revival {
            ship_destroyed: self.wreck_fresh(),
            respawned: self.revive_due(),
            game_reset: self.revive_due() && self.lifes == 0,
        }
    }
}

/// Puts the ship back into play. A destroyed ship costs a life. Where none is
/// left the game begins anew instead, with its score and lives reset and its
/// rocks cleared, and the result is `true`: the caller then starts a wave
/// with [`reset_rocks`].
pub fn reset_level(state: &mut State) -> (game_reset: bool)
    ensures
        final(state)@ == old(state)@.level_reset(),
        final(state).random == old(state).random,
        game_reset == old(state)@.out_of_lives(),
{
    let mut game_reset: bool = false;
    if !state.ship.status.is_alive() {
        if state.lifes == 0 {
            state.lifes = STARTING_LIVES;
            state.score = 0;
            state.rocks.clear();
            state.stage_start = state.now;
            game_reset = true;
        } else {
            state.lifes -= 1;
        }
    }
    state.ship = Ship::default();
    game_reset
}

/// Begins a game: three lives in reserve, no score, a ship in play, and a
/// first wave of fresh rocks of the sizes `sizes`, as many as [`wave_size`]
/// asks for at no score.
pub fn reset_game(state: &mut State, sizes: &Vec<RockSize>)
    requires
        sizes@.len() == wave_size(0),
    ensures
        fresh_rocks(final(state)@.rocks, sizes@),
        final(state)@ == old(state)@.game_reset().wave_begun(
            wave_drawn(sizes@, old(state).random).0,
        ),
        final(state).random == wave_drawn(sizes@, old(state).random).1,
        final(state)@.score == 0,
        final(state)@.lifes == 3,
{
    state.lifes = STARTING_LIVES;
    state.score = 0;
    state.ship = Ship::default();
    reset_rocks(state, sizes);
}

/// Works the ship's destruction and return for one frame: reports a ship
/// destroyed at the session's present time, and puts a destroyed ship back
/// into play once its delay has passed, as [`reset_level`] does.
pub fn death_and_respawn(state: &mut State) -> (revival: Revival)
    ensures
        final(state)@ == old(state)@.revived(),
        final(state).random == old(state).random,
        revival == old(state)@.revival(),
{
    match state.ship.status {
        ShipStatus::Alive => Revival {
            ship_destroyed: false,
            respawned: false,
            game_reset: false,
        },
        ShipStatus::Dead(record) => {
            let ship_destroyed: bool = record.death_time == state.now;
            if state.now > record.death_timer {
                let game_reset: bool = reset_level(state);
                Revival { ship_destroyed, respawned: true, game_reset }
            } else {
                Revival { ship_destroyed, respawned: false, game_reset: false }
            }
        },
    }
}

} // verus!
