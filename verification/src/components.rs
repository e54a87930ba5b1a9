//! The parts entities are made of, and the entities themselves.

use crate::constants::EXPLOSION_FRAME_TIME;
use crate::enemy::formation::Formation;
use crate::geometry::{Transform, Vector2};
use vstd::prelude::*;

verus! {

/// Direction of travel: each component is a multiple of the base speed.
#[derive(Clone, Copy, Debug, PartialEq, Eq, Structural)]
pub struct Velocity {
    pub x: i32,
    pub y: i32,
}

impl Velocity {
    pub fn new(x: i32, y: i32) -> (r: Self)
        ensures
            r == (Velocity { x, y }),
    {
        Self { x, y }
    }
}

/// How an entity that moves leaves the game.
#[derive(Clone, Copy, Debug, PartialEq, Eq, Structural)]
pub struct Movable {
    /// The entity is removed once it is well outside the window.
    pub auto_despawn: bool,
}

/// Footprint of a sprite at full scale, in world units.
#[derive(Clone, Copy, Debug, PartialEq, Eq, Structural)]
pub struct SpriteSize {
    pub w: u16,
    pub h: u16,
}

impl SpriteSize {
    /// The footprint at `scale` percent.
    pub open spec fn spec_scaled(&self, scale: u16) -> Vector2 {
        Vector2 { x: (self.w * scale / 100) as i32, y: (self.h * scale / 100) as i32 }
    }

    /// The footprint at `scale` percent, rounded down to whole units.
    #[verifier::when_used_as_spec(spec_scaled)]
    pub fn scaled(&self, scale: u16) -> (r: Vector2)
        ensures
            r == self.spec_scaled(scale),
            r.x == self.w * scale / 100,
            r.y == self.h * scale / 100,
    {
        assert(self.w * scale <= 0xffff * 0xffff && self.h * scale <= 0xffff * 0xffff)
            by (nonlinear_arith)
            requires
                self.w <= 0xffff,
                self.h <= 0xffff,
                scale <= 0xffff,
        ;
        let w: u32 = self.w as u32 * scale as u32 / 100;
        let h: u32 = self.h as u32 * scale as u32 / 100;
        Vector2 { x: w as i32, y: h as i32 }
    }
}

impl vstd::std_specs::convert::FromSpecImpl<(u16, u16)> for SpriteSize {
    open spec fn obeys_from_spec() -> bool {
        true
    }

    open spec fn from_spec(value: (u16, u16)) -> Self {
        SpriteSize { w: value.0, h: value.1 }
    }
}

impl From<(u16, u16)> for SpriteSize {
    fn from(value: (u16, u16)) -> (r: Self) {
        SpriteSize { w: value.0, h: value.1 }
    }
}

/// Who fired a shot.
#[derive(Clone, Copy, Debug, PartialEq, Eq, Structural)]
pub enum Origin {
    /// The player fired it: it destroys enemies.
    FromPlayer,
    /// An enemy fired it: it destroys the player.
    FromEnemy,
}

/// The player's ship.
#[derive(Clone, Copy, Debug, PartialEq, Eq, Structural)]
pub struct Player {
    pub id: u64,
    pub transform: Transform,
    pub velocity: Velocity,
    pub movable: Movable,
    pub size: SpriteSize,
}

/// An enemy ship.
#[derive(Clone, Copy, Debug, PartialEq, Eq, Structural)]
pub struct Enemy {
    pub id: u64,
    pub transform: Transform,
    pub formation: Formation,
    pub size: SpriteSize,
}

/// A shot in flight.
#[derive(Clone, Copy, Debug, PartialEq, Eq, Structural)]
pub struct Laser {
    pub id: u64,
    pub transform: Transform,
    pub velocity: Velocity,
    pub movable: Movable,
    pub size: SpriteSize,
    pub origin: Origin,
}

/// A request for an explosion at a place. The explosion system uses it up.
#[derive(Clone, Copy, Debug, PartialEq, Eq, Structural)]
pub struct ExplosionToSpawn(pub Vector2);

/// Time left until an explosion shows its next frame, in milliseconds.
#[derive(Clone, Copy, Debug, PartialEq, Eq, Structural)]
pub struct ExplosionTimer(pub u32);

impl Default for ExplosionTimer {
    fn default() -> (r: Self)
        ensures
            r == ExplosionTimer(EXPLOSION_FRAME_TIME),
    {
        ExplosionTimer(EXPLOSION_FRAME_TIME)
    }
}

/// An explosion that is playing.
#[derive(Clone, Copy, Debug, PartialEq, Eq, Structural)]
pub struct Explosion {
    pub id: u64,
    pub transform: Transform,
    pub timer: ExplosionTimer,
    /// The frame on show.
    pub index: usize,
}

} // verus!
