//! Shots in flight.

use crate::components::Laser;
use crate::constants::{BASE_STEP, DESPAWN_MARGIN};
use crate::geometry::{clamp_i32, shift, Transform, Vector2};
use crate::handle::{apart, keys, lemma_part_of_itself, lemma_push_new, lemma_without_is_part};
use crate::resource::WinSize;
use crate::sequence::{lemma_without_origin, retain, without};
use crate::world::{laser_key, lemma_fewer_entities_keep_handles, World, WorldView};
use vstd::prelude::*;

verus! {

/// A shot after one tick of flight: each coordinate has changed by the
/// heading times the base step, and stops at the edge of the coordinate
/// space.
pub open spec fn spec_moved(laser: Laser) -> Laser {
    let at = laser.transform.translation;
    Laser {
        transform: Transform {
            translation: Vector2 {
                x: clamp_i32(at.x + laser.velocity.x * BASE_STEP) as i32,
                y: clamp_i32(at.y + laser.velocity.y * BASE_STEP) as i32,
            },
            ..laser.transform
        },
        ..laser
    }
}

/// Moves a shot by one tick of flight.
#[verifier::when_used_as_spec(spec_moved)]
pub fn moved(laser: Laser) -> (r: Laser)
    ensures
        r == spec_moved(laser),
{
    let at = laser.transform.translation;
    let mut r = laser;
    r.transform.translation.x = shift(at.x, laser.velocity.x as i64 * BASE_STEP as i64);
    r.transform.translation.y = shift(at.y, laser.velocity.y as i64 * BASE_STEP as i64);
    r
}

/// The point lies outside the window by more than the despawn margin.
pub open spec fn spec_out_of_bounds(at: Vector2, win_size: WinSize) -> bool {
    ||| at.y > win_size.h / 2 + DESPAWN_MARGIN
    ||| at.y < -(win_size.h / 2) - DESPAWN_MARGIN
    ||| at.x > win_size.w / 2 + DESPAWN_MARGIN
    ||| at.x < -(win_size.w / 2) - DESPAWN_MARGIN
}

/// Tells whether a point lies outside the window by more than the margin.
#[verifier::when_used_as_spec(spec_out_of_bounds)]
pub fn out_of_bounds(at: Vector2, win_size: WinSize) -> (out: bool)
    requires
        win_size.wf(),
    ensures
        out == spec_out_of_bounds(at, win_size),
{
    let half_w: i32 = win_size.w / 2;
    let half_h: i32 = win_size.h / 2;
    at.y > half_h + DESPAWN_MARGIN || at.y < -half_h - DESPAWN_MARGIN || at.x > half_w + DESPAWN_MARGIN
        || at.x < -half_w - DESPAWN_MARGIN
}

/// The shot is to be removed: it removes itself, and it is out of bounds.
pub open spec fn lost(laser: Laser, win_size: WinSize) -> bool {
    laser.movable.auto_despawn && spec_out_of_bounds(laser.transform.translation, win_size)
}

impl WorldView {
    /// The game after a shot was started: if a handle is left, `laser` joins
    /// the shots in flight under that handle; if none is left, nothing starts.
    pub open spec fn with_laser(self, laser: Laser) -> WorldView {
        if self.has_handle() {
            WorldView {
                lasers: self.lasers.push(Laser { id: self.next_id, ..laser }),
                next_id: (self.next_id + 1) as u64,
                ..self
            }
        } else {
            self
        }
    }

    /// The shots in flight, each after one tick of flight.
    pub open spec fn moved_lasers(self) -> Seq<Laser> {
        Seq::new(self.lasers.len(), |i: int| spec_moved(self.lasers[i]))
    }

    /// For each shot, whether it is lost after its move.
    pub open spec fn lost_lasers(self) -> Seq<bool> {
        Seq::new(self.lasers.len(), |i: int| lost(spec_moved(self.lasers[i]), self.win_size))
    }

    /// The game after the shots have flown: every shot has moved, and those
    /// that are then lost are gone.
    pub open spec fn after_laser_movable(self) -> WorldView {
        WorldView { lasers: without(self.moved_lasers(), self.lost_lasers()), ..self }
    }
}

/// Starts a shot under the next handle, if one is left.
pub fn spawn_laser(world: &mut World, laser: Laser)
    ensures
        final(world)@ == old(world)@.with_laser(laser),
{
    if let Some(id) = world.take_id() {
        let mut laser = laser;
        laser.id = id;
        world.lasers.push(laser);
    }
}

/// Moves every shot, and removes the shots that have left the window by
/// more than the margin and remove themselves.
pub fn laser_movable_system(world: &mut World)
    requires
        old(world)@.win_size.wf(),
    ensures
        final(world)@ == old(world)@.after_laser_movable(),
{
    let ghost before = world@;
    let mut flown: Vec<Laser> = Vec::new();
    let mut gone: Vec<bool> = Vec::new();
    let mut i: usize = 0;
    while i < world.lasers.len()
        invariant
            i <= world.lasers.len(),
            world@ == before,
            before.win_size.wf(),
            flown@ =~= Seq::new(i as nat, |k: int| spec_moved(before.lasers[k])),
            gone@ =~= Seq::new(i as nat, |k: int| lost(spec_moved(before.lasers[k]), before.win_size)),
        decreases world.lasers.len() - i,
    {
        let laser = moved(world.lasers[i]);
        flown.push(laser);
        gone.push(laser.movable.auto_despawn && out_of_bounds(laser.transform.translation, world.win_size));
        i += 1;
    }
    assert(flown@ =~= before.moved_lasers());
    assert(gone@ =~= before.lost_lasers());
    world.lasers = retain(&flown, &gone);
}

/// A shot that removes itself is gone within the tick in which it leaves the
/// window by more than the margin: after the shots have flown, no such shot
/// in the game is out of bounds. And no shot comes from nowhere: each shot
/// in the game is one of the shots from before, moved.
pub proof fn lemma_lost_lasers_are_gone(world: WorldView, k: int)
    requires
        0 <= k < world.after_laser_movable().lasers.len(),
    ensures
        !lost(world.after_laser_movable().lasers[k], world.win_size),
        exists|i: int|
            0 <= i < world.lasers.len() && world.after_laser_movable().lasers[k] == spec_moved(
                #[trigger] world.lasers[i],
            ),
{
    lemma_without_origin(world.moved_lasers(), world.lost_lasers(), k);
    let i = choose|i: int|
        0 <= i < world.moved_lasers().len() && !world.lost_lasers()[i] && #[trigger] world.moved_lasers()[i]
            == without(world.moved_lasers(), world.lost_lasers())[k];
    assert(world.after_laser_movable().lasers[k] == spec_moved(world.lasers[i]));
}

/// Starting a shot keeps the game well formed, and takes no handle that was
/// given out before.
pub proof fn lemma_with_laser_keeps_wf(world: WorldView, laser: Laser)
    requires
        world.wf(),
    ensures
        world.with_laser(laser).wf(),
        world.precedes(world.with_laser(laser)),
{
    if world.has_handle() {
        let after = world.with_laser(laser);
        assert(after.laser_ids() =~= world.laser_ids().push(world.next_id));
        assert(after.enemy_ids() =~= world.enemy_ids());
        assert(after.explosion_ids() =~= world.explosion_ids());
        lemma_push_new(world.laser_ids(), world.next_id);
        assert(apart(after.laser_ids(), after.enemy_ids()));
    }
}

/// The flight of the shots keeps the game well formed, and brings no shot
/// back.
pub proof fn lemma_laser_movable_keeps_wf(world: WorldView)
    requires
        world.wf(),
    ensures
        world.after_laser_movable().wf(),
        world.precedes(world.after_laser_movable()),
{
    let after = world.after_laser_movable();
    lemma_without_is_part(world.moved_lasers(), world.lost_lasers(), laser_key());
    assert(keys(world.moved_lasers(), laser_key()) =~= world.laser_ids());
    lemma_part_of_itself(world.enemy_ids());
    lemma_part_of_itself(world.explosion_ids());
    lemma_part_of_itself(world.player_ids());
    lemma_fewer_entities_keep_handles(world, after);
}

} // verus!
