//! What touches what: the caller's findings on one frame's positions.

use vstd::prelude::*;
use crate::state::{Session, State};

verus! {

/// Which pairs of entities are within collision distance of each other.
///
/// Every table is indexed as the session's lists are at the start of the
/// frame's update. A table of rows has one row for each entity of the first
/// kind and in it one entry for each entity of the second.
///
/// The rounds of a frame follow the moves of its entities: the ship moves
/// first, then the rocks move and meet the others, then the shots move and
/// meet the ship and the saucers, and the saucers meet the ship before they
/// move. So the caller tries a rock where it is after its move against the
/// shots and the saucers where they were before theirs, and a shot where it
/// is after its move against the saucers where they were before theirs.
pub struct Contacts {
    /// For each rock, whether it is within its collision radius of the ship.
    pub rock_ship: Vec<bool>,
    /// For each rock and saucer, whether the saucer is within the rock's
    /// collision radius.
    pub rock_alien: Vec<Vec<bool>>,
    /// For each rock and shot, whether the shot is within the rock's
    /// collision radius.
    pub rock_projectile: Vec<Vec<bool>>,
    /// For each shot, whether it is within reach of the ship.
    pub projectile_ship: Vec<bool>,
    /// For each shot and saucer, whether the shot is within the saucer's
    /// collision radius.
    pub projectile_alien: Vec<Vec<bool>>,
    /// For each saucer, whether the ship is within its collision radius.
    pub alien_ship: Vec<bool>,
}

/// Whether `table` has `rows` rows of `columns` entries each.
pub open spec fn is_grid(table: Seq<Vec<bool>>, rows: nat, columns: nat) -> bool {
    &&& table.len() == rows
    &&& forall|i: int| 0 <= i < rows ==> (#[trigger] table[i]).len() == columns
}

/// Checks whether `table` has `rows` rows of `columns` entries each.
pub fn check_grid(table: &Vec<Vec<bool>>, rows: usize, columns: usize) -> (fits: bool)
    ensures
        fits == is_grid(table@, rows as nat, columns as nat),
{
    if table.len() != rows {
        return false;
    }
    let mut i: usize = 0;
    while i < rows
        invariant
            i <= rows,
            table.len() == rows,
            forall|k: int| 0 <= k < i ==> (#[trigger] table@[k]).len() == columns,
        decreases rows - i,
    {
        if table[i].len() != columns {
            return false;
        }
        i += 1;
    }
    true
}

impl Contacts {
    /// Whether the tables have the dimensions of the lists of `session`.
    pub open spec fn fits(&self, session: Session) -> bool {
        &&& self.rock_ship@.len() == session.rocks.len()
        &&& is_grid(self.rock_alien@, session.rocks.len(), session.aliens.len())
        &&& is_grid(self.rock_projectile@, session.rocks.len(), session.projectiles.len())
        &&& self.projectile_ship@.len() == session.projectiles.len()
        &&& is_grid(self.projectile_alien@, session.projectiles.len(), session.aliens.len())
        &&& self.alien_ship@.len() == session.aliens.len()
    }

    /// Computes [`Contacts::fits`] for the session of `state`.
    pub fn fits_state(&self, state: &State) -> (fits: bool)
        ensures
            fits == self.fits(state@),
    {
        let rocks: usize = state.rocks.len();
        let aliens: usize = state.aliens.len();
        let shots: usize = state.projectiles.len();
        self.rock_ship.len() == rocks && check_grid(&self.rock_alien, rocks, aliens) && check_grid(
            &self.rock_projectile,
            rocks,
            shots,
        ) && self.projectile_ship.len() == shots && check_grid(&self.projectile_alien, shots, aliens)
            && self.alien_ship.len() == aliens
    }

    /// Tables of the dimensions of `state` in which nothing touches anything.
    pub fn none(state: &State) -> (contacts: Self)
        ensures
            contacts.fits(state@),
            forall|i: int| 0 <= i < contacts.rock_ship@.len() ==> !contacts.rock_ship@[i],
            forall|i: int| 0 <= i < contacts.projectile_ship@.len() ==> !contacts.projectile_ship@[i],
            forall|i: int| 0 <= i < contacts.alien_ship@.len() ==> !contacts.alien_ship@[i],
            forall|i: int, j: int|
                0 <= i < contacts.rock_alien@.len() && 0 <= j < contacts.rock_alien@[i]@.len()
                    ==> !contacts.rock_alien@[i]@[j],
            forall|i: int, j: int|
                0 <= i < contacts.rock_projectile@.len() && 0 <= j
                    < contacts.rock_projectile@[i]@.len() ==> !contacts.rock_projectile@[i]@[j],
            forall|i: int, j: int|
                0 <= i < contacts.projectile_alien@.len() && 0 <= j
                    < contacts.projectile_alien@[i]@.len() ==> !contacts.projectile_alien@[i]@[j],
    {
        let rocks: usize = state.rocks.len();
        let aliens: usize = state.aliens.len();
        let shots: usize = state.projectiles.len();
        Contacts {
            rock_ship: clear_row(rocks),
            rock_alien: clear_grid(rocks, aliens),
            rock_projectile: clear_grid(rocks, shots),
            projectile_ship: clear_row(shots),
            projectile_alien: clear_grid(shots, aliens),
            alien_ship: clear_row(aliens),
        }
    }
}

/// A row of `columns` entries, all `false`.
pub fn clear_row(columns: usize) -> (row: Vec<bool>)
    ensures
        row@.len() == columns,
        forall|j: int| 0 <= j < columns ==> !row@[j],
{
    let mut row: Vec<bool> = Vec::new();
    let mut j: usize = 0;
    while j < columns
        invariant
            j <= columns,
            row@.len() == j,
            forall|k: int| 0 <= k < j ==> !row@[k],
        decreases columns - j,
    {
        row.push(false);
        j += 1;
    }
    row
}

/// A table of `rows` rows of `columns` entries, all `false`.
pub fn clear_grid(rows: usize, columns: usize) -> (table: Vec<Vec<bool>>)
    ensures
        is_grid(table@, rows as nat, columns as nat),
        forall|i: int, j: int| 0 <= i < rows && 0 <= j < columns ==> !table@[i]@[j],
{
    let mut table: Vec<Vec<bool>> = Vec::new();
    let mut i: usize = 0;
    while i < rows
        invariant
            i <= rows,
            table@.len() == i,
            forall|k: int| 0 <= k < i ==> (#[trigger] table@[k]).len() == columns,
            forall|k: int, j: int| 0 <= k < i && 0 <= j < columns ==> !table@[k]@[j],
        decreases rows - i,
    {
        let row = clear_row(columns);
        table.push(row);
        i += 1;
    }
    table
}

} // verus!
