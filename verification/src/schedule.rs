//! The order of a tick: which systems run in which mode, and in what order.

use crate::combat::{
    enemy_laser_hit_player_system,
    lemma_collision_keeps_wf,
    lemma_kills_bounded,
    lemma_kills_match,
    player_laser_hit_enemy_system,
};
use crate::constants::{MAX_ENEMY, SPAWN_INTERVAL};
use crate::enemy::{
    enemy_fire_system,
    enemy_fire_with,
    enemy_movement_system,
    enemy_spawn_system,
    enemy_spawn_with,
    lemma_enemy_fire_frame,
    lemma_enemy_fire_keeps_wf,
    lemma_enemy_movement_keeps_wf,
    lemma_enemy_spawn_keeps_wf,
};
use crate::enemy::formation::{lemma_fresh_orbits, Formation};
use crate::explosion::{
    explosion_animation_system,
    explosion_to_spawn_system,
    lemma_explosion_animation_keeps_wf,
    lemma_explosion_to_spawn_keeps_wf,
};
use crate::geometry::Vector2;
use crate::laser::{laser_movable_system, lemma_laser_movable_keeps_wf};
use crate::player::{
    lemma_player_fire_keeps_wf,
    lemma_player_motion_keeps_wf,
    lemma_player_spawn_keeps_wf,
    player_fire_system,
    player_keyboard_event_system,
    player_movable_system,
    player_spawn_system,
};
use crate::resource::{GameState, Input, Time};
use crate::sequence::lemma_without_len;
use crate::state::{apply_state_transition, paused_input_system, welcome_input_system};
use crate::world::{lemma_precedes_is_transitive, lemma_same_handles_precede, World, WorldView};
use vstd::prelude::*;

verus! {

/// A countdown of `remaining` milliseconds runs out within `delta`.
pub open spec fn spec_timer_fires(remaining: u32, delta: u32) -> bool {
    delta >= remaining
}

/// A countdown after `delta` milliseconds: it starts over when it has run
/// out, and runs down until then.
pub open spec fn timer_after(remaining: u32, delta: u32) -> u32 {
    if delta >= remaining {
        SPAWN_INTERVAL
    } else {
        (remaining - delta) as u32
    }
}

/// Runs a countdown for `delta` milliseconds and tells whether it ran out.
pub fn timer_fires(remaining: &mut u32, delta: u32) -> (fired: bool)
    ensures
        fired == spec_timer_fires(*old(remaining), delta),
        *final(remaining) == timer_after(*old(remaining), delta),
{
    if delta >= *remaining {
        *remaining = SPAWN_INTERVAL;
        true
    } else {
        *remaining = *remaining - delta;
        false
    }
}

impl WorldView {
    /// The game after its motion systems: the keys steer the ship, then the
    /// ship, the shots and the enemies move.
    pub open spec fn after_motion(self, input: Input, targets: Seq<Vector2>) -> WorldView {
        self.after_player_keyboard_event(input).after_player_movable().after_laser_movable().after_enemy_movement(
            targets,
        )
    }

    /// The game after its collision systems: the player's shots meet the
    /// enemies, then the enemies' shots meet the ship.
    pub open spec fn after_collision(self, time: Time) -> WorldView {
        self.after_player_laser_hit_enemy().after_enemy_laser_hit_player(time)
    }

    /// The game after the enemy spawn timer has run for the tick, and an
    /// enemy was tried to spawn if it ran out.
    pub open spec fn after_timed_enemy_spawn(self, time: Time, fresh: Formation) -> WorldView {
        let ran = WorldView { enemy_spawn_timer: timer_after(self.enemy_spawn_timer, time.delta), ..self };
        if spec_timer_fires(self.enemy_spawn_timer, time.delta) {
            ran.after_enemy_spawn(fresh)
        } else {
            ran
        }
    }

    /// The game after the player spawn timer has run for the tick, and the
    /// ship was tried to spawn if it ran out.
    pub open spec fn after_timed_player_spawn(self, time: Time) -> WorldView {
        let ran = WorldView { player_spawn_timer: timer_after(self.player_spawn_timer, time.delta), ..self };
        if spec_timer_fires(self.player_spawn_timer, time.delta) {
            ran.after_player_spawn(time)
        } else {
            ran
        }
    }

    /// The game after the ship had its turn to spawn and to fire, and the
    /// explosions theirs to start and to play.
    pub open spec fn after_upkeep(self, input: Input, time: Time) -> WorldView {
        self.after_timed_player_spawn(time).after_player_fire(input).after_explosion_to_spawn().after_explosion_animation(
            time,
        )
    }

    /// The game after its lifecycle systems: enemies spawn and fire, the
    /// ship spawns and fires, explosions start and play.
    pub open spec fn after_lifecycle(self, input: Input, time: Time, fresh: Formation, shots: Seq<bool>) -> WorldView {
        self.after_timed_enemy_spawn(time, fresh).after_enemy_fire(shots).after_upkeep(input, time)
    }

    /// The game after one tick of play: motion, then collisions, then
    /// lifecycle.
    pub open spec fn after_in_game(
        self,
        input: Input,
        time: Time,
        targets: Seq<Vector2>,
        fresh: Formation,
        shots: Seq<bool>,
    ) -> WorldView {
        self.after_motion(input, targets).after_collision(time).after_lifecycle(input, time, fresh, shots)
    }

    /// The game as a tick finds it once the mode asked for has taken effect
    /// and the sounds of the last tick are forgotten.
    pub open spec fn at_tick_start(self) -> WorldView {
        (WorldView { sounds: Seq::empty(), ..self }).after_state_transition()
    }

    /// The score has room for the enemies that the coming tick destroys.
    pub open spec fn score_fits(self, input: Input, targets: Seq<Vector2>) -> bool {
        let start = self.at_tick_start();
        let moved = start.after_motion(input, targets);
        start.state == GameState::InGame ==> moved.score + moved.kills() <= u32::MAX
    }

    /// The game after one tick. The mode asked for during the last tick
    /// takes effect first. Then only the systems of the mode run: on the
    /// title screen and during the pause the keys are looked at; in play the
    /// game moves on. `targets` are the points the enemies pursue, `fresh` is
    /// the orbit to start if one is due, and `shots` tells which enemies
    /// fire.
    pub open spec fn after_tick(
        self,
        input: Input,
        time: Time,
        targets: Seq<Vector2>,
        fresh: Formation,
        shots: Seq<bool>,
    ) -> WorldView {
        let start = self.at_tick_start();
        match start.state {
            GameState::Welcome => start.after_welcome_input(input),
            GameState::InGame => start.after_in_game(input, time, targets, fresh, shots),
            GameState::Paused => start.after_paused_input(input),
        }
    }
}

/// Begins a tick: forgets the sounds of the last tick and lets the mode that
/// was asked for take effect.
fn begin_tick(world: &mut World)
    ensures
        final(world)@ == old(world)@.at_tick_start(),
{
    world.sounds.clear();
    apply_state_transition(world);
}

/// Runs the motion systems and the collision systems.
fn run_motion_and_collision(world: &mut World, input: &Input, time: &Time, targets: &Vec<Vector2>)
    requires
        old(world)@.win_size.wf(),
        ({
            let moved = old(world)@.after_motion(*input, targets@);
            moved.score + moved.kills() <= u32::MAX
        }),
    ensures
        final(world)@ == old(world)@.after_motion(*input, targets@).after_collision(*time),
        final(world)@.win_size == old(world)@.win_size,
{
    player_keyboard_event_system(world, input);
    player_movable_system(world);
    laser_movable_system(world);
    enemy_movement_system(world, targets);
    player_laser_hit_enemy_system(world);
    enemy_laser_hit_player_system(world, time);
}

/// Gives the ship its turn to spawn and to fire, and the explosions theirs
/// to start and to play.
fn run_upkeep(world: &mut World, input: &Input, time: &Time)
    requires
        old(world)@.win_size.wf(),
    ensures
        final(world)@ == old(world)@.after_upkeep(*input, *time),
{
    if timer_fires(&mut world.player_spawn_timer, time.delta) {
        player_spawn_system(world, time);
    }
    player_fire_system(world, input);
    explosion_to_spawn_system(world);
    explosion_animation_system(world, time);
}

/// Runs the systems of the game in play, in their order, with orbits and
/// shots as chance has them.
fn run_in_game(world: &mut World, input: &Input, time: &Time, targets: &Vec<Vector2>)
    requires
        old(world)@.win_size.wf(),
        ({
            let moved = old(world)@.after_motion(*input, targets@);
            moved.score + moved.kills() <= u32::MAX
        }),
    ensures
        exists|fresh: Formation, shots: Seq<bool>|
            fresh.fresh_for(old(world)@.win_size) && final(world)@ == #[trigger] old(world)@.after_in_game(
                *input,
                *time,
                targets@,
                fresh,
                shots,
            ),
{
    let ghost before = world@;
    let ghost win_size = before.win_size;
    run_motion_and_collision(world, input, time, targets);
    let ghost collided = world@;
    if timer_fires(&mut world.enemy_spawn_timer, time.delta) {
        let ghost ran = world@;
        enemy_spawn_system(world);
        proof {
            let drawn = choose|fresh: Formation|
                fresh.fresh_for(win_size) && world@ == #[trigger] ran.after_enemy_spawn(fresh);
            assert(world@ == collided.after_timed_enemy_spawn(*time, drawn));
        }
    } else {
        proof {
            lemma_fresh_orbits(win_size);
            let some = choose|fresh: Formation| #[trigger] fresh.fresh_for(win_size);
            assert(world@ == collided.after_timed_enemy_spawn(*time, some));
        }
    }
    let ghost spawned = world@;
    let ghost fresh = choose|fresh: Formation|
        fresh.fresh_for(win_size) && spawned == #[trigger] collided.after_timed_enemy_spawn(*time, fresh);
    enemy_fire_system(world);
    let ghost shots = choose|shots: Seq<bool>|
        shots.len() == spawned.enemies.len() && world@ == #[trigger] spawned.after_enemy_fire(shots);
    proof {
        lemma_enemy_fire_frame(spawned, shots, spawned.enemies.len() as int);
    }
    run_upkeep(world, input, time);
    assert(world@ == before.after_in_game(*input, *time, targets@, fresh, shots));
}

/// Runs the systems of the game in play, in their order, with the orbit and
/// the shots given.
fn run_in_game_with(
    world: &mut World,
    input: &Input,
    time: &Time,
    targets: &Vec<Vector2>,
    fresh: Formation,
    shots: &Vec<bool>,
)
    requires
        old(world)@.win_size.wf(),
        ({
            let moved = old(world)@.after_motion(*input, targets@);
            moved.score + moved.kills() <= u32::MAX
        }),
    ensures
        final(world)@ == old(world)@.after_in_game(*input, *time, targets@, fresh, shots@),
{
    run_motion_and_collision(world, input, time, targets);
    if timer_fires(&mut world.enemy_spawn_timer, time.delta) {
        enemy_spawn_with(world, fresh);
    }
    let ghost spawned = world@;
    enemy_fire_with(world, shots);
    proof {
        lemma_enemy_fire_frame(spawned, shots@, spawned.enemies.len() as int);
    }
    run_upkeep(world, input, time);
}

impl World {
    /// Advances the game by one tick, with orbits and shots as chance has
    /// them. `targets[i]` is the point on the orbit of the enemy at place `i`
    /// at the phase that enemy is heading for.
    pub fn tick(&mut self, input: &Input, time: &Time, targets: &Vec<Vector2>)
        requires
            old(self)@.wf(),
            old(self)@.score_fits(*input, targets@),
        ensures
            final(self)@.wf(),
            old(self)@.precedes(final(self)@),
            exists|fresh: Formation, shots: Seq<bool>|
                fresh.fresh_for(old(self)@.win_size) && final(self)@ == #[trigger] old(self)@.after_tick(
                    *input,
                    *time,
                    targets@,
                    fresh,
                    shots,
                ),
    {
        let ghost before = self@;
        begin_tick(self);
        let ghost start = self@;
        assert(start.win_size == before.win_size);
        proof {
            lemma_fresh_orbits(before.win_size);
        }
        let ghost some = choose|fresh: Formation| #[trigger] fresh.fresh_for(before.win_size);
        match self.state {
            GameState::Welcome => {
                welcome_input_system(self, input);
                proof {
                    assert(self@ == before.after_tick(*input, *time, targets@, some, Seq::empty()));
                    lemma_tick_keeps_wf(before, *input, *time, targets@, some, Seq::empty());
                }
            },
            GameState::InGame => {
                run_in_game(self, input, time, targets);
                proof {
                    let (fresh, shots) = choose|fresh: Formation, shots: Seq<bool>|
                        fresh.fresh_for(start.win_size) && self@ == #[trigger] start.after_in_game(
                            *input,
                            *time,
                            targets@,
                            fresh,
                            shots,
                        );
                    assert(self@ == before.after_tick(*input, *time, targets@, fresh, shots));
                    lemma_tick_keeps_wf(before, *input, *time, targets@, fresh, shots);
                }
            },
            GameState::Paused => {
                paused_input_system(self, input);
                proof {
                    assert(self@ == before.after_tick(*input, *time, targets@, some, Seq::empty()));
                    lemma_tick_keeps_wf(before, *input, *time, targets@, some, Seq::empty());
                }
            },
        }
    }

    /// Advances the game by one tick, with `fresh` as the orbit to start if
    /// one is due, and with the enemy at place `i` firing if `shots[i]` is
    /// set.
    pub fn tick_with(
        &mut self,
        input: &Input,
        time: &Time,
        targets: &Vec<Vector2>,
        fresh: Formation,
        shots: &Vec<bool>,
    )
        requires
            old(self)@.wf(),
            old(self)@.score_fits(*input, targets@),
        ensures
            final(self)@ == old(self)@.after_tick(*input, *time, targets@, fresh, shots@),
            fresh.wf() ==> final(self)@.wf(),
            fresh.wf() ==> old(self)@.precedes(final(self)@),
    {
        let ghost before = self@;
        begin_tick(self);
        match self.state {
            GameState::Welcome => welcome_input_system(self, input),
            GameState::InGame => run_in_game_with(self, input, time, targets, fresh, shots),
            GameState::Paused => paused_input_system(self, input),
        }
        proof {
            if fresh.wf() {
                lemma_tick_keeps_wf(before, *input, *time, targets@, fresh, shots@);
            }
        }
    }

    /// Tells whether the game is fit for a tick: it is well formed, and the
    /// score has room for one point for each shot in flight. A game that is
    /// fit meets what `tick` requires, whatever the keys and the targets.
    pub fn can_tick(&self) -> (ok: bool)
        ensures
            ok == (self@.wf() && self@.score + self@.lasers.len() <= u32::MAX),
            ok ==> forall|input: Input, targets: Seq<Vector2>| #[trigger] self@.score_fits(input, targets),
    {
        let ok = self.is_wf() && self.lasers.len() <= (u32::MAX - self.game_data.get_score()) as usize;
        proof {
            if ok {
                assert forall|input: Input, targets: Seq<Vector2>| #[trigger]
                    self@.score_fits(input, targets) by {
                    lemma_score_fits(self@, input, targets);
                }
            }
        }
        ok
    }
}

/// A score with room for one point for each shot in flight has room for
/// the enemies that the coming tick destroys, whatever the keys and the
/// targets.
pub proof fn lemma_score_fits(world: WorldView, input: Input, targets: Seq<Vector2>)
    requires
        world.score + world.lasers.len() <= u32::MAX,
    ensures
        world.score_fits(input, targets),
{
    let start = world.at_tick_start();
    let shifted = start.after_player_keyboard_event(input).after_player_movable();
    assert(shifted.lasers == world.lasers);
    lemma_without_len(shifted.moved_lasers(), shifted.lost_lasers());
    let moved = start.after_motion(input, targets);
    lemma_kills_bounded(moved.lasers, moved.enemies, moved.lasers.len() as int);
}

/// The motion systems keep the game well formed, and bring nothing back
/// that has left the game.
pub proof fn lemma_motion_keeps_wf(world: WorldView, input: Input, targets: Seq<Vector2>)
    requires
        world.wf(),
    ensures
        world.after_motion(input, targets).wf(),
        world.precedes(world.after_motion(input, targets)),
{
    let steered = world.after_player_keyboard_event(input);
    lemma_player_motion_keeps_wf(world, input);
    lemma_player_motion_keeps_wf(steered, input);
    let shifted = steered.after_player_movable();
    lemma_laser_movable_keeps_wf(shifted);
    let flown = shifted.after_laser_movable();
    lemma_enemy_movement_keeps_wf(flown, targets);
    lemma_precedes_is_transitive(world, steered, shifted);
    lemma_precedes_is_transitive(world, shifted, flown);
    lemma_precedes_is_transitive(world, flown, flown.after_enemy_movement(targets));
}

/// The lifecycle systems keep the game well formed, as long as the orbits
/// that start are, and bring nothing back that has left the game.
pub proof fn lemma_lifecycle_keeps_wf(world: WorldView, input: Input, time: Time, fresh: Formation, shots: Seq<bool>)
    requires
        world.wf(),
        fresh.wf(),
    ensures
        world.after_lifecycle(input, time, fresh, shots).wf(),
        world.precedes(world.after_lifecycle(input, time, fresh, shots)),
{
    let ran = WorldView { enemy_spawn_timer: timer_after(world.enemy_spawn_timer, time.delta), ..world };
    assert(ran.wf());
    lemma_same_handles_precede(world, ran);
    lemma_enemy_spawn_keeps_wf(ran, fresh);
    let spawned = world.after_timed_enemy_spawn(time, fresh);
    lemma_precedes_is_transitive(world, ran, spawned);
    lemma_enemy_fire_keeps_wf(spawned, shots, spawned.enemies.len() as int);
    let fired = spawned.after_enemy_fire(shots);
    lemma_precedes_is_transitive(world, spawned, fired);
    let waited = WorldView { player_spawn_timer: timer_after(fired.player_spawn_timer, time.delta), ..fired };
    assert(waited.wf());
    lemma_same_handles_precede(fired, waited);
    lemma_player_spawn_keeps_wf(waited, time);
    let manned = fired.after_timed_player_spawn(time);
    lemma_precedes_is_transitive(fired, waited, manned);
    lemma_precedes_is_transitive(world, fired, manned);
    lemma_player_fire_keeps_wf(manned, input);
    let armed = manned.after_player_fire(input);
    lemma_precedes_is_transitive(world, manned, armed);
    lemma_explosion_to_spawn_keeps_wf(armed);
    let lit = armed.after_explosion_to_spawn();
    lemma_precedes_is_transitive(world, armed, lit);
    lemma_explosion_animation_keeps_wf(lit, time);
    lemma_precedes_is_transitive(world, lit, lit.after_explosion_animation(time));
}

/// From tick to tick the game stays well formed: among other things, the
/// count of enemies stays within its cap, and no two entities share a handle.
/// And no tick brings anything back that has left the game: every entity
/// after the tick was there before, or has a handle that had not been given
/// out.
pub proof fn lemma_tick_keeps_wf(
    world: WorldView,
    input: Input,
    time: Time,
    targets: Seq<Vector2>,
    fresh: Formation,
    shots: Seq<bool>,
)
    requires
        world.wf(),
        world.score_fits(input, targets),
        fresh.wf(),
    ensures
        world.after_tick(input, time, targets, fresh, shots).wf(),
        world.after_tick(input, time, targets, fresh, shots).max_enemy.0 <= MAX_ENEMY,
        world.precedes(world.after_tick(input, time, targets, fresh, shots)),
{
    let quiet = WorldView { sounds: Seq::empty(), ..world };
    let start = world.at_tick_start();
    assert(quiet.wf());
    assert(start.wf());
    lemma_same_handles_precede(world, start);
    if start.state == GameState::InGame {
        lemma_motion_keeps_wf(start, input, targets);
        let moved = start.after_motion(input, targets);
        lemma_collision_keeps_wf(moved, time);
        let collided = moved.after_collision(time);
        lemma_lifecycle_keeps_wf(collided, input, time, fresh, shots);
        let after = collided.after_lifecycle(input, time, fresh, shots);
        lemma_precedes_is_transitive(start, moved, collided);
        lemma_precedes_is_transitive(start, collided, after);
        lemma_precedes_is_transitive(world, start, after);
    } else {
        lemma_same_handles_precede(world, world.after_tick(input, time, targets, fresh, shots));
    }
}

/// The count of enemies tracks the enemies: if it is the number of enemies
/// alive before a tick, it is their number after it.
pub proof fn lemma_count_tracks_enemies(
    world: WorldView,
    input: Input,
    time: Time,
    targets: Seq<Vector2>,
    fresh: Formation,
    shots: Seq<bool>,
)
    requires
        world.wf(),
        world.max_enemy.0 == world.enemies.len(),
    ensures
        ({
            let after = world.after_tick(input, time, targets, fresh, shots);
            after.max_enemy.0 == after.enemies.len()
        }),
{
    let start = world.at_tick_start();
    if start.state == GameState::InGame {
        let moved = start.after_motion(input, targets);
        lemma_motion_keeps_wf(start, input, targets);
        lemma_kills_match(moved);
        let collided = moved.after_collision(time);
        let spawned = collided.after_timed_enemy_spawn(time, fresh);
        lemma_enemy_fire_frame(spawned, shots, spawned.enemies.len() as int);
    }
}

/// The lifecycle systems leave the mode, the mode asked for, the score and
/// the window as they are.
pub proof fn lemma_lifecycle_frame(world: WorldView, input: Input, time: Time, fresh: Formation, shots: Seq<bool>)
    ensures
        ({
            let after = world.after_lifecycle(input, time, fresh, shots);
            &&& after.state == world.state
            &&& after.next_state == world.next_state
            &&& after.score == world.score
            &&& after.win_size == world.win_size
        }),
{
    let spawned = world.after_timed_enemy_spawn(time, fresh);
    lemma_enemy_fire_frame(spawned, shots, spawned.enemies.len() as int);
}

/// The mode changes only where a tick begins: the tick ends in the mode it
/// found once the mode asked for had taken effect, whatever its systems did.
pub proof fn lemma_mode_changes_between_ticks(
    world: WorldView,
    input: Input,
    time: Time,
    targets: Seq<Vector2>,
    fresh: Formation,
    shots: Seq<bool>,
)
    ensures
        world.after_tick(input, time, targets, fresh, shots).state == match world.next_state {
            Some(asked) => asked,
            None => world.state,
        },
{
    let start = world.at_tick_start();
    if start.state == GameState::InGame {
        let collided = start.after_motion(input, targets).after_collision(time);
        lemma_lifecycle_frame(collided, input, time, fresh, shots);
    }
}

/// The texts follow the mode: if the title text is on screen exactly on the
/// title screen, and the pause text exactly during the pause, before a tick,
/// then so they are after it.
pub proof fn lemma_texts_follow_mode(
    world: WorldView,
    input: Input,
    time: Time,
    targets: Seq<Vector2>,
    fresh: Formation,
    shots: Seq<bool>,
)
    requires
        world.texts_follow_mode(),
    ensures
        world.after_tick(input, time, targets, fresh, shots).texts_follow_mode(),
{
    let start = world.at_tick_start();
    assert(start.texts_follow_mode());
    if start.state == GameState::InGame {
        let collided = start.after_motion(input, targets).after_collision(time);
        lemma_lifecycle_frame(collided, input, time, fresh, shots);
        let spawned = collided.after_timed_enemy_spawn(time, fresh);
        lemma_enemy_fire_frame(spawned, shots, spawned.enemies.len() as int);
    }
}

/// Only play moves the game. A tick that finds the game on the title screen
/// or paused, once the mode asked for has taken effect, runs none of the
/// systems of play: the ship, the enemies and their count, the shots, the
/// explosions, the score, the formation maker, the timers and the handles
/// are after the tick what they were before it.
pub proof fn lemma_only_play_moves_the_game(
    world: WorldView,
    input: Input,
    time: Time,
    targets: Seq<Vector2>,
    fresh: Formation,
    shots: Seq<bool>,
)
    requires
        world.at_tick_start().state != GameState::InGame,
    ensures
        ({
            let after = world.after_tick(input, time, targets, fresh, shots);
            after == (WorldView {
                state: after.state,
                next_state: after.next_state,
                welcome_text: after.welcome_text,
                paused_text: after.paused_text,
                sounds: Seq::empty(),
                ..world
            })
        }),
{
}

/// While the game is paused nothing in it moves on: a tick that finds the
/// game paused, with no mode asked for, forgets the sounds of the last tick
/// and asks for the game to run if the key that resumes is held, and leaves
/// everything else, the count of enemies included, as it is.
pub proof fn lemma_paused_tick_is_idle(
    world: WorldView,
    input: Input,
    time: Time,
    targets: Seq<Vector2>,
    fresh: Formation,
    shots: Seq<bool>,
)
    requires
        world.state == GameState::Paused,
        world.next_state is None,
    ensures
        world.after_tick(input, time, targets, fresh, shots) == (WorldView {
            sounds: Seq::empty(),
            next_state: if input.resume {
                Some(GameState::InGame)
            } else {
                None
            },
            ..world
        }),
{
}

/// On the title screen nothing in the game moves on either: a tick that
/// finds the title screen, with no mode asked for, forgets the sounds of the
/// last tick and asks for the game to run if the key that starts it went
/// down, and leaves everything else as it is.
pub proof fn lemma_welcome_tick_is_idle(
    world: WorldView,
    input: Input,
    time: Time,
    targets: Seq<Vector2>,
    fresh: Formation,
    shots: Seq<bool>,
)
    requires
        world.state == GameState::Welcome,
        world.next_state is None,
    ensures
        world.after_tick(input, time, targets, fresh, shots) == (WorldView {
            sounds: Seq::empty(),
            next_state: if input.confirm {
                Some(GameState::InGame)
            } else {
                None
            },
            ..world
        }),
{
}

/// The death of the player ends the game in progress. If in a tick of play
/// a shot of an enemy overlaps the ship when the collisions are dealt with,
/// the tick ends with a score of exactly zero, without the ship, and with
/// the title screen asked for; and the tick after that finds the game on the
/// title screen, still with a score of zero.
pub proof fn lemma_player_death_resets(
    world: WorldView,
    input: Input,
    time: Time,
    targets: Seq<Vector2>,
    fresh: Formation,
    shots: Seq<bool>,
)
    requires
        world.at_tick_start().state == GameState::InGame,
        world.at_tick_start().after_motion(input, targets).after_player_laser_hit_enemy().player_is_hit(),
    ensures
        ({
            let after = world.after_tick(input, time, targets, fresh, shots);
            &&& after.score == 0
            &&& after.next_state == Some(GameState::Welcome)
            &&& after.state == GameState::InGame
            &&& after.at_tick_start().state == GameState::Welcome
            &&& after.at_tick_start().score == 0
        }),
{
    let collided = world.at_tick_start().after_motion(input, targets).after_collision(time);
    lemma_lifecycle_frame(collided, input, time, fresh, shots);
}

/// The score only ever grows or starts over: after a tick it is zero, or no
/// less than before.
pub proof fn lemma_score_grows_or_resets(
    world: WorldView,
    input: Input,
    time: Time,
    targets: Seq<Vector2>,
    fresh: Formation,
    shots: Seq<bool>,
)
    ensures
        ({
            let after = world.after_tick(input, time, targets, fresh, shots);
            after.score == 0 || after.score >= world.score
        }),
{
    let start = world.at_tick_start();
    if start.state == GameState::InGame {
        let collided = start.after_motion(input, targets).after_collision(time);
        lemma_lifecycle_frame(collided, input, time, fresh, shots);
    }
}

} // verus!
