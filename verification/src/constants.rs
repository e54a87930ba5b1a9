//! The numbers of the game, in world units and milliseconds.

use vstd::prelude::*;

verus! {

/// World units in one pixel.
pub const PIXEL: i32 = 12;

/// Simulation ticks in one second.
pub const TICK_RATE: u32 = 60;

/// Base speed of everything that moves, in pixels per second.
pub const BASE_SPEED: u32 = 500;

/// Distance covered in one tick at base speed, in world units:
/// `BASE_SPEED * PIXEL / TICK_RATE`.
pub const BASE_STEP: i32 = 100;

/// Footprint of the player's ship (144 by 75 pixels).
pub const PLAYER_SIZE: (u16, u16) = (1728, 900);

/// Footprint of a shot fired by the player (9 by 54 pixels).
pub const PLAYER_LASER_SIZE: (u16, u16) = (108, 648);

/// Footprint of an enemy ship (144 by 75 pixels).
pub const ENEMY_SIZE: (u16, u16) = (1728, 900);

/// Footprint of a shot fired by an enemy (17 by 55 pixels).
pub const ENEMY_LASER_SIZE: (u16, u16) = (204, 660);

/// Footprint of one frame of the explosion sheet (64 by 64 pixels).
pub const EXPLOSION_SIZE: (u16, u16) = (768, 768);

/// Number of frames in the explosion animation.
pub const EXPLOSION_ANIMATION_LEN: usize = 16;

/// Time one explosion frame stays on screen, in milliseconds.
pub const EXPLOSION_FRAME_TIME: u32 = 50;

/// Scale at which sprites are drawn and collide, in percent.
pub const SPRITE_SCALE: u16 = 50;

/// Most enemies alive at once.
pub const MAX_ENEMY: u32 = 2;

/// Time between two attempts to spawn an enemy or the player, in milliseconds.
pub const SPAWN_INTERVAL: u32 = 500;

/// Time the player stays dead before respawning, in milliseconds.
pub const PLAYER_RESPAWN_DELAY: i64 = 2000;

/// Most enemies that share one formation.
pub const FORMATION_MEMBER_MAX: u32 = 2;

/// How far outside the window enemies enter (100 pixels).
pub const SPAWN_MARGIN: i32 = 1200;

/// How far outside the window a shot may fly before it is removed (200 pixels).
pub const DESPAWN_MARGIN: i32 = 2400;

/// Depth layer of shots.
pub const LASER_LAYER: i32 = 1;

/// Depth layer of ships and of the explosions that replace them.
pub const ACTOR_LAYER: i32 = 10;

/// Depth layer of text laid over the playfield.
pub const TEXT_LAYER: i32 = 11;

} // verus!
