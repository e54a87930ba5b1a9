//! Explosions: how they start, play and end.

use crate::components::{Explosion, ExplosionTimer, ExplosionToSpawn};
use crate::constants::{ACTOR_LAYER, EXPLOSION_ANIMATION_LEN, EXPLOSION_FRAME_TIME};
use crate::geometry::Transform;
use crate::handle::{
    apart,
    below,
    keys,
    lemma_part_of_itself,
    lemma_without_is_part,
    rising,
};
use crate::resource::Time;
use crate::sequence::{retain, without};
use crate::world::{explosion_key, lemma_fewer_entities_keep_handles, World, WorldView};
use vstd::prelude::*;

verus! {

/// The explosion that answers a request: at the place asked for, at full
/// scale, on its first frame.
pub open spec fn explosion_for(id: u64, request: ExplosionToSpawn) -> Explosion {
    Explosion {
        id,
        transform: Transform { translation: request.0, layer: ACTOR_LAYER, scale: 100 },
        timer: ExplosionTimer(EXPLOSION_FRAME_TIME),
        index: 0,
    }
}

/// The frame on show has had its time.
pub open spec fn frame_done(explosion: Explosion, delta: u32) -> bool {
    delta >= explosion.timer.0
}

/// The explosion has shown its last frame for its time.
pub open spec fn burnt_out(explosion: Explosion, delta: u32) -> bool {
    frame_done(explosion, delta) && explosion.index + 1 >= EXPLOSION_ANIMATION_LEN
}

/// An explosion after `delta` milliseconds: when its frame has had its time
/// it shows the next frame and the timer starts over; until then the timer
/// runs down. One that is burnt out is left as it is.
pub open spec fn spec_animated(explosion: Explosion, delta: u32) -> Explosion {
    if burnt_out(explosion, delta) {
        explosion
    } else if frame_done(explosion, delta) {
        Explosion {
            timer: ExplosionTimer(EXPLOSION_FRAME_TIME),
            index: (explosion.index + 1) as usize,
            ..explosion
        }
    } else {
        Explosion { timer: ExplosionTimer((explosion.timer.0 - delta) as u32), ..explosion }
    }
}

/// Plays an explosion for `delta` milliseconds.
#[verifier::when_used_as_spec(spec_animated)]
pub fn animated(explosion: Explosion, delta: u32) -> (r: Explosion)
    ensures
        r == spec_animated(explosion, delta),
{
    let mut r = explosion;
    if delta >= explosion.timer.0 {
        if explosion.index < EXPLOSION_ANIMATION_LEN - 1 {
            r.timer = ExplosionTimer::default();
            r.index = explosion.index + 1;
        }
    } else {
        r.timer = ExplosionTimer(explosion.timer.0 - delta);
    }
    r
}

impl WorldView {
    /// The number of explosions that start: one for each request, as far as
    /// the handles go.
    pub open spec fn explosions_started(self) -> nat {
        if self.explosions_to_spawn.len() <= u64::MAX - self.next_id {
            self.explosions_to_spawn.len()
        } else {
            (u64::MAX - self.next_id) as nat
        }
    }

    /// The game after the requests for explosions were answered: for each
    /// request, in order and as far as the handles go, an explosion plays at
    /// the place asked for, and no request is left.
    pub open spec fn after_explosion_to_spawn(self) -> WorldView {
        WorldView {
            explosions: self.explosions + Seq::new(
                self.explosions_started(),
                |i: int| explosion_for((self.next_id + i) as u64, self.explosions_to_spawn[i]),
            ),
            explosions_to_spawn: Seq::empty(),
            next_id: (self.next_id + self.explosions_started()) as u64,
            ..self
        }
    }

    /// The explosions playing, each after `delta` milliseconds.
    pub open spec fn animated_explosions(self, delta: u32) -> Seq<Explosion> {
        Seq::new(self.explosions.len(), |i: int| spec_animated(self.explosions[i], delta))
    }

    /// For each explosion playing, whether it is burnt out after `delta`
    /// milliseconds.
    pub open spec fn burnt_out_explosions(self, delta: u32) -> Seq<bool> {
        Seq::new(self.explosions.len(), |i: int| burnt_out(self.explosions[i], delta))
    }

    /// The game after the explosions have played for the time of the tick:
    /// the burnt out ones are gone.
    pub open spec fn after_explosion_animation(self, time: Time) -> WorldView {
        WorldView {
            explosions: without(self.animated_explosions(time.delta), self.burnt_out_explosions(time.delta)),
            ..self
        }
    }
}

/// Starts an explosion for each request, and uses the requests up.
pub fn explosion_to_spawn_system(world: &mut World)
    ensures
        final(world)@ == old(world)@.after_explosion_to_spawn(),
{
    let ghost before = world@;
    let mut i: usize = 0;
    while i < world.explosions_to_spawn.len() && world.next_id < u64::MAX
        invariant
            i <= world.explosions_to_spawn.len(),
            i <= before.explosions_started(),
            world@ == (WorldView { explosions: world.explosions@, next_id: world.next_id, ..before }),
            world.next_id == before.next_id + i,
            world.explosions@ =~= before.explosions + Seq::new(
                i as nat,
                |k: int| explosion_for((before.next_id + k) as u64, before.explosions_to_spawn[k]),
            ),
        decreases world.explosions_to_spawn.len() - i,
    {
        let request = world.explosions_to_spawn[i];
        let id = world.next_id;
        world.next_id = id + 1;
        world.explosions.push(
            Explosion {
                id,
                transform: Transform { translation: request.0, layer: ACTOR_LAYER, scale: 100 },
                timer: ExplosionTimer::default(),
                index: 0,
            },
        );
        i += 1;
    }
    world.explosions_to_spawn.clear();
    assert(i == before.explosions_started());
    assert(world@.explosions =~= before.after_explosion_to_spawn().explosions);
}

/// Plays every explosion for the time of the tick, and removes those that
/// have shown their last frame for its time.
pub fn explosion_animation_system(world: &mut World, time: &Time)
    ensures
        final(world)@ == old(world)@.after_explosion_animation(*time),
{
    let ghost before = world@;
    let mut played: Vec<Explosion> = Vec::new();
    let mut gone: Vec<bool> = Vec::new();
    let mut i: usize = 0;
    while i < world.explosions.len()
        invariant
            i <= world.explosions.len(),
            world@ == before,
            played@ =~= Seq::new(i as nat, |k: int| spec_animated(before.explosions[k], time.delta)),
            gone@ =~= Seq::new(i as nat, |k: int| burnt_out(before.explosions[k], time.delta)),
        decreases world.explosions.len() - i,
    {
        let explosion = world.explosions[i];
        played.push(animated(explosion, time.delta));
        gone.push(time.delta >= explosion.timer.0 && explosion.index >= EXPLOSION_ANIMATION_LEN - 1);
        i += 1;
    }
    assert(played@ =~= before.animated_explosions(time.delta));
    assert(gone@ =~= before.burnt_out_explosions(time.delta));
    world.explosions = retain(&played, &gone);
}

/// Starting the explosions asked for keeps the game well formed.
pub proof fn lemma_explosion_to_spawn_keeps_wf(world: WorldView)
    requires
        world.wf(),
    ensures
        world.after_explosion_to_spawn().wf(),
        world.precedes(world.after_explosion_to_spawn()),
{
    let after = world.after_explosion_to_spawn();
    let old_ids = world.explosion_ids();
    let new_ids = after.explosion_ids();
    assert(after.laser_ids() =~= world.laser_ids());
    assert(after.enemy_ids() =~= world.enemy_ids());
    assert(after.player_ids() =~= world.player_ids());
    assert forall|k: int| 0 <= k < new_ids.len() implies #[trigger] new_ids[k] == if k < old_ids.len() {
        old_ids[k]
    } else {
        (world.next_id + (k - old_ids.len())) as u64
    } by {}
    assert(rising(new_ids));
    assert(below(new_ids, after.next_id));
    assert(apart(after.laser_ids(), new_ids));
    assert(apart(after.enemy_ids(), new_ids));
    assert(apart(after.player_ids(), new_ids));
}

/// Playing the explosions keeps the game well formed.
pub proof fn lemma_explosion_animation_keeps_wf(world: WorldView, time: Time)
    requires
        world.wf(),
    ensures
        world.after_explosion_animation(time).wf(),
        world.precedes(world.after_explosion_animation(time)),
{
    let after = world.after_explosion_animation(time);
    lemma_without_is_part(
        world.animated_explosions(time.delta),
        world.burnt_out_explosions(time.delta),
        explosion_key(),
    );
    assert(keys(world.animated_explosions(time.delta), explosion_key()) =~= world.explosion_ids());
    lemma_part_of_itself(world.laser_ids());
    lemma_part_of_itself(world.enemy_ids());
    lemma_part_of_itself(world.player_ids());
    lemma_fewer_entities_keep_handles(world, after);
}

} // verus!
