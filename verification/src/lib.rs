//! Simulation core of a small arcade shooter.
//!
//! The crate holds the per-tick rules of the game and nothing else: where
//! things are, what hits what, who spawns when, and which mode the game is in.
//! Drawing, sound, key polling and trigonometry belong to the host program,
//! which feeds the core plain values and reads plain values back.
//!
//! All lengths are integers in world units, twelve to a pixel, so that every
//! length the game uses (half a sprite, a third of the window, one tick of
//! travel) is a whole number. All times are integers in milliseconds.
//!
//! A host drives the game one tick at a time. Before each tick it computes,
//! for every enemy, the point of the enemy's orbit at the phase the enemy is
//! heading for (see `enemy::formation::Formation`). It then calls
//! `world::World::tick` with the keys, the clock and those points. After the
//! tick it plays the sounds in `World::sounds`, and shows the entities of the
//! game where the game has them; entities keep their handles for as long as
//! they live, and no handle is used twice.

pub mod collision;
pub mod combat;
pub mod components;
pub mod constants;
mod despawn;
pub mod enemy;
pub mod explosion;
pub mod geometry;
pub mod handle;
pub mod laser;
pub mod player;
mod random;
pub mod resource;
pub mod schedule;
pub mod sequence;
pub mod state;
pub mod world;
