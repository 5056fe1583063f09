//! Rules of an arcade space shooter played in a wraparound arena.
//!
//! The crate decides what happens to the ship, the rocks, the saucers, the
//! shots and the debris of one game session, frame by frame: who is
//! destroyed, what a destroyed rock breaks into, how long shots and debris
//! last, how score and lives move, when a saucer or a new wave of rocks is
//! due. It holds no geometry. The caller keeps positions and velocities,
//! moves them, and tells the session which pairs of entities touch; the
//! session answers with the new state and a report of what the caller has to
//! act out.
//!
//! A frame is played with the functions of [`frame`], in the order that the
//! module gives, and ended with [`finish::finish_frame`]. The three rounds of its collisions are in [`strike`],
//! [`flight`] and [`saucer`], what follows them in [`particle`], [`sweep`],
//! [`revival`] and [`progress`]. [`laws`] proves what holds of every frame.
//!
//! Time is counted in whole microseconds throughout.

pub mod alien;
pub mod clock;
pub mod collision;
pub mod contact;
pub mod debris;
pub mod display;
pub mod finish;
pub mod flight;
pub mod frame;
pub mod laws;
pub mod particle;
pub mod progress;
pub mod projectile;
pub mod random;
pub mod revival;
pub mod rock;
pub mod saucer;
pub mod shape;
pub mod ship;
pub mod state;
pub mod strike;
pub mod sweep;
pub mod wave;

