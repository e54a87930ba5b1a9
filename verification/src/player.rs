//! The player's ship: how it enters, steers, moves and fires.

use crate::components::{Laser, Movable, Origin, Player, SpriteSize, Velocity};
use crate::constants::{
    ACTOR_LAYER,
    BASE_STEP,
    LASER_LAYER,
    PIXEL,
    PLAYER_LASER_SIZE,
    PLAYER_RESPAWN_DELAY,
    PLAYER_SIZE,
    SPRITE_SCALE,
};
use crate::geometry::{clamp_i32, shift, Transform, Vector2};
use crate::laser::{lemma_with_laser_keeps_wf, spawn_laser};
use crate::resource::{GameState, Input, PlayerState, Sound, Time, WinSize, NEVER_SHOT};
use crate::world::{lemma_precedes_is_transitive, lemma_same_handles_precede, World, WorldView};
use vstd::prelude::*;

verus! {

/// Where the ship enters: in the middle of the bottom edge, half its scaled
/// height and five pixels above it.
pub open spec fn player_spawn_point(win_size: WinSize) -> Vector2 {
    Vector2 {
        x: 0,
        y: (-(win_size.h / 2) + PLAYER_SIZE.1 / 2 * SPRITE_SCALE / 100 + 5 * PIXEL) as i32,
    }
}

/// The ship may enter: it is not in play, and it was never shot down or was
/// shot down more than the respawn delay ago.
pub open spec fn respawn_due(player_state: PlayerState, time: Time) -> bool {
    !player_state.on && (player_state.last_shot == NEVER_SHOT || time.elapsed - PLAYER_RESPAWN_DELAY
        > player_state.last_shot)
}

/// The heading the steering keys ask for: `-1` while the left key is held,
/// else `1` while the right key is held, else `0`.
pub open spec fn spec_heading(input: Input) -> i32 {
    if input.left {
        -1i32
    } else if input.right {
        1i32
    } else {
        0i32
    }
}

/// Reads the heading off the steering keys.
#[verifier::when_used_as_spec(spec_heading)]
pub fn heading(input: Input) -> (x: i32)
    ensures
        x == spec_heading(input),
{
    if input.left {
        -1
    } else if input.right {
        1
    } else {
        0
    }
}

/// How far to the side of the ship its shots start: half its scaled width
/// less five pixels.
pub open spec fn muzzle_offset() -> i64 {
    (PLAYER_SIZE.0 / 2 * SPRITE_SCALE / 100 - 5 * PIXEL) as i64
}

/// How far above the centre of the ship its shots start (15 pixels).
pub open spec fn muzzle_lift() -> int {
    15 * PIXEL
}

/// The shot the ship fires from the muzzle `offset` to the side: it flies up.
pub open spec fn spec_player_laser(player: Player, offset: i64) -> Laser {
    Laser {
        id: player.id,
        transform: Transform {
            translation: Vector2 {
                x: clamp_i32(player.transform.translation.x + offset) as i32,
                y: clamp_i32(player.transform.translation.y + muzzle_lift()) as i32,
            },
            layer: LASER_LAYER,
            scale: SPRITE_SCALE,
        },
        velocity: Velocity { x: 0, y: 1 },
        movable: Movable { auto_despawn: true },
        size: SpriteSize { w: PLAYER_LASER_SIZE.0, h: PLAYER_LASER_SIZE.1 },
        origin: Origin::FromPlayer,
    }
}

impl WorldView {
    /// The game after an attempt to spawn the ship: where the ship may enter
    /// and a handle is left, it enters at the spawn point, at rest, and is
    /// marked as in play.
    pub open spec fn after_player_spawn(self, time: Time) -> WorldView {
        if respawn_due(self.player_state, time) && self.has_handle() {
            WorldView {
                player: Some(
                    Player {
                        id: self.next_id,
                        transform: Transform {
                            translation: player_spawn_point(self.win_size),
                            layer: ACTOR_LAYER,
                            scale: SPRITE_SCALE,
                        },
                        velocity: Velocity { x: 0, y: 0 },
                        movable: Movable { auto_despawn: false },
                        size: SpriteSize { w: PLAYER_SIZE.0, h: PLAYER_SIZE.1 },
                    },
                ),
                player_state: PlayerState { on: true, last_shot: NEVER_SHOT },
                next_id: (self.next_id + 1) as u64,
                ..self
            }
        } else {
            self
        }
    }

    /// The game after the fire key was looked at: if the ship is in play and
    /// the key came up, the sound of the shot is asked for and two shots
    /// start, one at the right muzzle and then one at the left.
    pub open spec fn after_player_fire(self, input: Input) -> WorldView {
        if self.player is Some && input.fire {
            let player = self.player->0;
            (WorldView { sounds: self.sounds.push(Sound::PlayerLaser), ..self }).with_laser(
                spec_player_laser(player, muzzle_offset()),
            ).with_laser(spec_player_laser(player, (-muzzle_offset()) as i64))
        } else {
            self
        }
    }

    /// The game after the keys of play were looked at. The pause key asks
    /// for the pause, with or without a ship. A ship in play takes its heading
    /// from the steering keys, also in the tick of the pause.
    pub open spec fn after_player_keyboard_event(self, input: Input) -> WorldView {
        WorldView {
            player: match self.player {
                Some(player) => Some(
                    Player { velocity: Velocity { x: spec_heading(input), ..player.velocity }, ..player },
                ),
                None => None,
            },
            next_state: if input.pause {
                Some(GameState::Paused)
            } else {
                self.next_state
            },
            ..self
        }
    }

    /// The game after the ship has moved: it moves sideways by its heading
    /// times the base step if that leaves its centre within the window, and
    /// stays where it is if not.
    pub open spec fn after_player_movable(self) -> WorldView {
        if self.player is Some {
            let player = self.player->0;
            let new_x = player.transform.translation.x + player.velocity.x * BASE_STEP;
            let max_w = self.win_size.w / 2;
            if -max_w <= new_x <= max_w {
                WorldView {
                    player: Some(
                        Player {
                            transform: Transform {
                                translation: Vector2 { x: new_x as i32, ..player.transform.translation },
                                ..player.transform
                            },
                            ..player
                        },
                    ),
                    ..self
                }
            } else {
                self
            }
        } else {
            self
        }
    }
}

/// Tries to spawn the ship.
pub fn player_spawn_system(world: &mut World, time: &Time)
    requires
        old(world)@.win_size.wf(),
    ensures
        final(world)@ == old(world)@.after_player_spawn(*time),
{
    let last_shot = world.player_state.last_shot;
    if !world.player_state.on && (last_shot == NEVER_SHOT || time.elapsed as i128
        - PLAYER_RESPAWN_DELAY as i128 > last_shot as i128) {
        if let Some(id) = world.take_id() {
            let bottom: i32 = -(world.win_size.h / 2);
            let lift: i32 = (PLAYER_SIZE.1 / 2) as i32 * SPRITE_SCALE as i32 / 100 + 5 * PIXEL;
            world.player = Some(
                Player {
                    id,
                    transform: Transform {
                        translation: Vector2 { x: 0, y: bottom + lift },
                        layer: ACTOR_LAYER,
                        scale: SPRITE_SCALE,
                    },
                    velocity: Velocity::new(0, 0),
                    movable: Movable { auto_despawn: false },
                    size: SpriteSize::from(PLAYER_SIZE),
                },
            );
            world.player_state.spawned();
        }
    }
}

/// Makes the shot the ship fires from the muzzle `offset` to the side.
#[verifier::when_used_as_spec(spec_player_laser)]
pub fn player_laser(player: Player, offset: i64) -> (laser: Laser)
    ensures
        laser == spec_player_laser(player, offset),
{
    let at = player.transform.translation;
    Laser {
        id: player.id,
        transform: Transform {
            translation: Vector2 { x: shift(at.x, offset), y: shift(at.y, 15 * PIXEL as i64) },
            layer: LASER_LAYER,
            scale: SPRITE_SCALE,
        },
        velocity: Velocity::new(0, 1),
        movable: Movable { auto_despawn: true },
        size: SpriteSize::from(PLAYER_LASER_SIZE),
        origin: Origin::FromPlayer,
    }
}

/// Fires the ship's two shots when the fire key comes up.
pub fn player_fire_system(world: &mut World, input: &Input)
    ensures
        final(world)@ == old(world)@.after_player_fire(*input),
{
    if let Some(player) = world.player {
        if input.fire {
            world.sounds.push(Sound::PlayerLaser);
            let x_offset: i64 = (PLAYER_SIZE.0 / 2) as i64 * SPRITE_SCALE as i64 / 100 - 5 * PIXEL as i64;
            spawn_laser(world, player_laser(player, x_offset));
            spawn_laser(world, player_laser(player, -x_offset));
        }
    }
}

/// Looks at the keys of play: asks for the pause when the pause key went
/// down, and steers the ship, if there is one, by the steering keys.
pub fn player_keyboard_event_system(world: &mut World, input: &Input)
    ensures
        final(world)@ == old(world)@.after_player_keyboard_event(*input),
{
    if input.pause {
        world.next_state = Some(GameState::Paused);
    }
    if let Some(player) = world.player {
        let mut player = player;
        player.velocity.x = heading(*input);
        world.player = Some(player);
    }
}

/// Moves the ship sideways, unless the move would take it out of the window.
pub fn player_movable_system(world: &mut World)
    requires
        old(world)@.win_size.wf(),
    ensures
        final(world)@ == old(world)@.after_player_movable(),
{
    let max_w: i64 = (world.win_size.w / 2) as i64;
    if let Some(player) = world.player {
        let step: i64 = player.velocity.x as i64 * BASE_STEP as i64;
        let new_x: i64 = player.transform.translation.x as i64 + step;
        if -max_w <= new_x && new_x <= max_w {
            let mut player = player;
            player.transform.translation.x = new_x as i32;
            world.player = Some(player);
        }
    }
}

/// Steering and moving the ship keep the game well formed.
pub proof fn lemma_player_motion_keeps_wf(world: WorldView, input: Input)
    requires
        world.wf(),
    ensures
        world.after_player_keyboard_event(input).wf(),
        world.after_player_movable().wf(),
        world.precedes(world.after_player_keyboard_event(input)),
        world.precedes(world.after_player_movable()),
{
    let steered = world.after_player_keyboard_event(input);
    let moved = world.after_player_movable();
    assert(steered.player_ids() =~= world.player_ids());
    assert(moved.player_ids() =~= world.player_ids());
    lemma_same_handles_precede(world, steered);
    lemma_same_handles_precede(world, moved);
}

/// Spawning the ship keeps the game well formed.
pub proof fn lemma_player_spawn_keeps_wf(world: WorldView, time: Time)
    requires
        world.wf(),
    ensures
        world.after_player_spawn(time).wf(),
        world.precedes(world.after_player_spawn(time)),
{
    let after = world.after_player_spawn(time);
    if respawn_due(world.player_state, time) && world.has_handle() {
        assert(after.player_ids() =~= seq![world.next_id]);
        assert(world.player_ids() =~= Seq::empty());
    }
}

/// Firing keeps the game well formed.
pub proof fn lemma_player_fire_keeps_wf(world: WorldView, input: Input)
    requires
        world.wf(),
    ensures
        world.after_player_fire(input).wf(),
        world.precedes(world.after_player_fire(input)),
{
    if world.player is Some && input.fire {
        let player = world.player->0;
        let loud = WorldView { sounds: world.sounds.push(Sound::PlayerLaser), ..world };
        assert(loud.wf());
        lemma_same_handles_precede(world, loud);
        let once = loud.with_laser(spec_player_laser(player, muzzle_offset()));
        lemma_with_laser_keeps_wf(loud, spec_player_laser(player, muzzle_offset()));
        lemma_with_laser_keeps_wf(once, spec_player_laser(player, (-muzzle_offset()) as i64));
        lemma_precedes_is_transitive(world, loud, once);
        lemma_precedes_is_transitive(world, once, world.after_player_fire(input));
    }
}

} // verus!
