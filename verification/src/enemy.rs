//! Enemies: how they enter, move and fire.

pub mod formation;

use crate::components::{Enemy, Laser, Movable, Origin, SpriteSize, Velocity};
use crate::constants::{
    ACTOR_LAYER,
    ENEMY_LASER_SIZE,
    ENEMY_SIZE,
    LASER_LAYER,
    MAX_ENEMY,
    PIXEL,
    SPRITE_SCALE,
    TICK_RATE,
};
use crate::enemy::formation::{lemma_fresh_orbits, lemma_make_keeps_wf, Formation};
use crate::geometry::{
    approach,
    distance,
    lemma_approach_advances,
    lemma_approach_between,
    spec_approach,
    spec_distance,
    Transform,
    Vector2,
};
use crate::handle::{apart, lemma_push_new};
use crate::laser::{lemma_with_laser_keeps_wf, spawn_laser};
use crate::random::{draw_ratio, thread_rng};
use crate::resource::MaxEnemy;
use crate::world::{lemma_precedes_is_transitive, lemma_same_handles_precede, World, WorldView};
use vstd::prelude::*;

verus! {

/// The way an enemy of the given speed covers in one tick, in world units.
pub open spec fn spec_max_step(speed: u32) -> u64 {
    (speed * PIXEL / (TICK_RATE as int)) as u64
}

/// Computes the way an enemy covers in one tick.
#[verifier::when_used_as_spec(spec_max_step)]
pub fn max_step(speed: u32) -> (step: u64)
    ensures
        step == spec_max_step(speed),
{
    speed as u64 * PIXEL as u64 / TICK_RATE as u64
}

/// How near its target an enemy has to be for its phase to move on: the way
/// of one tick times the speed, over twenty.
pub open spec fn spec_commit_radius(speed: u32) -> u64 {
    (spec_max_step(speed) * speed / 20) as u64
}

/// Computes how near its target an enemy has to be for its phase to move on.
#[verifier::when_used_as_spec(spec_commit_radius)]
pub fn commit_radius(speed: u32) -> (radius: u64)
    ensures
        radius == spec_commit_radius(speed),
{
    let step = max_step(speed);
    assert(step * speed <= 0x4000_0000 * 0x1_0000_0000) by (nonlinear_arith)
        requires
            step <= 0x4000_0000,
            speed <= 0x1_0000_0000,
    ;
    step * speed as u64 / 20
}

/// The phase after `angle`. The count stops at its last value.
pub open spec fn next_phase(angle: u64) -> u64 {
    if angle < u64::MAX {
        (angle + 1) as u64
    } else {
        angle
    }
}

impl Formation {
    /// The phase the enemy is heading for: the host computes the point of
    /// the ellipse at this phase and hands it to the movement system.
    pub fn next_angle(&self) -> (angle: u64)
        ensures
            angle == next_phase(self.angle),
    {
        if self.angle < u64::MAX {
            self.angle + 1
        } else {
            self.angle
        }
    }
}

/// An enemy after one tick of pursuit of `target`, the point of its orbit at
/// its next phase. It moves towards the target by the way of one tick,
/// each coordinate by its share, and does not pass it. Its phase moves on if
/// it was within the commit radius of the target before the move.
pub open spec fn spec_advanced(enemy: Enemy, target: Vector2) -> Enemy {
    let here = enemy.transform.translation;
    let speed = enemy.formation.speed;
    let gap = spec_distance(here, target) as u64;
    let step = spec_max_step(speed);
    Enemy {
        transform: Transform {
            translation: Vector2 {
                x: spec_approach(here.x, target.x, step, gap),
                y: spec_approach(here.y, target.y, step, gap),
            },
            ..enemy.transform
        },
        formation: Formation {
            angle: if gap < spec_commit_radius(speed) {
                next_phase(enemy.formation.angle)
            } else {
                enemy.formation.angle
            },
            ..enemy.formation
        },
        ..enemy
    }
}

/// Moves an enemy by one tick towards `target`.
#[verifier::when_used_as_spec(spec_advanced)]
pub fn advanced(enemy: Enemy, target: Vector2) -> (r: Enemy)
    ensures
        r == spec_advanced(enemy, target),
{
    let here = enemy.transform.translation;
    let speed = enemy.formation.speed;
    let gap = distance(here, target);
    let step = max_step(speed);
    let x = approach(here.x, target.x, step, gap);
    let y = approach(here.y, target.y, step, gap);
    let angle = if gap < commit_radius(speed) {
        enemy.formation.next_angle()
    } else {
        enemy.formation.angle
    };
    Enemy {
        id: enemy.id,
        transform: Transform {
            translation: Vector2 { x, y },
            layer: enemy.transform.layer,
            scale: enemy.transform.scale,
        },
        formation: Formation {
            start: enemy.formation.start,
            radius: enemy.formation.radius,
            pivot: enemy.formation.pivot,
            speed,
            angle,
        },
        size: enemy.size,
    }
}

/// The square of the distance between two points.
pub open spec fn gap_squared(a: Vector2, b: Vector2) -> int {
    (a.x - b.x) * (a.x - b.x) + (a.y - b.y) * (a.y - b.y)
}

/// An enemy in pursuit never passes its target and never backs away from
/// it: on each axis it ends between where it was and the target. Unless it is
/// at the target already, or covers less than two units in a tick, it ends
/// nearer the target than it was.
pub proof fn lemma_pursuit_closes_in(enemy: Enemy, target: Vector2)
    ensures
        ({
            let here = enemy.transform.translation;
            let there = spec_advanced(enemy, target).transform.translation;
            &&& here.x <= target.x ==> here.x <= there.x <= target.x
            &&& target.x <= here.x ==> target.x <= there.x <= here.x
            &&& here.y <= target.y ==> here.y <= there.y <= target.y
            &&& target.y <= here.y ==> target.y <= there.y <= here.y
            &&& gap_squared(there, target) <= gap_squared(here, target)
            &&& here != target && spec_max_step(enemy.formation.speed) >= 2 ==> gap_squared(there, target)
                < gap_squared(here, target)
        }),
{
    let here = enemy.transform.translation;
    let there = spec_advanced(enemy, target).transform.translation;
    let gap = spec_distance(here, target) as u64;
    let step = spec_max_step(enemy.formation.speed);
    lemma_approach_between(here.x, target.x, step, gap);
    lemma_approach_between(here.y, target.y, step, gap);
    if here != target && step >= 2 {
        lemma_approach_advances(here, target, step);
    }
    lemma_nearer_on_both_axes(
        here.x - target.x,
        there.x - target.x,
        here.y - target.y,
        there.y - target.y,
    );
}

/// A point that is no farther from the origin on either axis is no farther
/// from it, and nearer if it is nearer on one axis.
proof fn lemma_nearer_on_both_axes(x: int, x2: int, y: int, y2: int)
    requires
        0 <= x2 <= x || x <= x2 <= 0,
        0 <= y2 <= y || y <= y2 <= 0,
    ensures
        x2 * x2 + y2 * y2 <= x * x + y * y,
        x2 != x || y2 != y ==> x2 * x2 + y2 * y2 < x * x + y * y,
{
    assert(x2 * x2 <= x * x && (x2 != x ==> x2 * x2 < x * x)) by (nonlinear_arith)
        requires
            0 <= x2 <= x || x <= x2 <= 0,
    ;
    assert(y2 * y2 <= y * y && (y2 != y ==> y2 * y2 < y * y)) by (nonlinear_arith)
        requires
            0 <= y2 <= y || y <= y2 <= 0,
    ;
}

/// The shot an enemy fires: it starts at the enemy and flies down.
pub open spec fn spec_enemy_laser(enemy: Enemy) -> Laser {
    Laser {
        id: enemy.id,
        transform: Transform {
            translation: enemy.transform.translation,
            layer: LASER_LAYER,
            scale: SPRITE_SCALE,
        },
        velocity: Velocity { x: 0, y: -1i32 },
        movable: Movable { auto_despawn: true },
        size: SpriteSize { w: ENEMY_LASER_SIZE.0, h: ENEMY_LASER_SIZE.1 },
        origin: Origin::FromEnemy,
    }
}

/// Makes the shot an enemy fires.
#[verifier::when_used_as_spec(spec_enemy_laser)]
pub fn enemy_laser(enemy: Enemy) -> (laser: Laser)
    ensures
        laser == spec_enemy_laser(enemy),
{
    Laser {
        id: enemy.id,
        transform: Transform {
            translation: enemy.transform.translation,
            layer: LASER_LAYER,
            scale: SPRITE_SCALE,
        },
        velocity: Velocity::new(0, -1),
        movable: Movable { auto_despawn: true },
        size: SpriteSize::from(ENEMY_LASER_SIZE),
        origin: Origin::FromEnemy,
    }
}

impl WorldView {
    /// The game after the enemies have moved: the enemy at place `i` has
    /// pursued `targets[i]`; an enemy without a target has stayed.
    pub open spec fn after_enemy_movement(self, targets: Seq<Vector2>) -> WorldView {
        WorldView {
            enemies: Seq::new(
                self.enemies.len(),
                |i: int|
                    if i < targets.len() {
                        spec_advanced(self.enemies[i], targets[i])
                    } else {
                        self.enemies[i]
                    },
            ),
            ..self
        }
    }

    /// The game after an attempt to spawn an enemy, where `fresh` is the
    /// orbit to start if the formation maker has to start one. At the cap,
    /// or with no handle left, nothing happens. Else an enemy enters at the
    /// start of the orbit that the formation maker hands out, and is counted.
    pub open spec fn after_enemy_spawn(self, fresh: Formation) -> WorldView {
        if self.max_enemy.0 >= MAX_ENEMY || !self.has_handle() {
            self
        } else {
            let formation = self.formation_maker.next_formation(fresh);
            WorldView {
                formation_maker: self.formation_maker.after_make(fresh),
                enemies: self.enemies.push(
                    Enemy {
                        id: self.next_id,
                        transform: Transform {
                            translation: formation.start,
                            layer: ACTOR_LAYER,
                            scale: SPRITE_SCALE,
                        },
                        formation,
                        size: SpriteSize { w: ENEMY_SIZE.0, h: ENEMY_SIZE.1 },
                    },
                ),
                max_enemy: MaxEnemy((self.max_enemy.0 + 1) as u32),
                next_id: (self.next_id + 1) as u64,
                ..self
            }
        }
    }

    /// The game after the first `n` enemies had their chance to fire, where
    /// `shots[i]` tells whether the enemy at place `i` fires. An enemy
    /// without an entry does not fire. The shot of an enemy is the shot it
    /// fires from where it is, under a handle of its own.
    pub open spec fn after_enemy_fire_of(self, shots: Seq<bool>, n: int) -> WorldView
        decreases n,
    {
        if n <= 0 {
            self
        } else {
            let before = self.after_enemy_fire_of(shots, n - 1);
            if n - 1 < shots.len() && shots[n - 1] {
                before.with_laser(spec_enemy_laser(self.enemies[n - 1]))
            } else {
                before
            }
        }
    }

    /// The game after every enemy had its chance to fire.
    pub open spec fn after_enemy_fire(self, shots: Seq<bool>) -> WorldView {
        self.after_enemy_fire_of(shots, self.enemies.len() as int)
    }
}

/// Enemy fire adds shots and takes handles, and leaves the rest of the game
/// as it is.
pub proof fn lemma_enemy_fire_frame(world: WorldView, shots: Seq<bool>, n: int)
    ensures
        ({
            let after = world.after_enemy_fire_of(shots, n);
            after == (WorldView { lasers: after.lasers, next_id: after.next_id, ..world })
        }),
        world.lasers.len() <= world.after_enemy_fire_of(shots, n).lasers.len(),
    decreases n,
{
    if n > 0 {
        lemma_enemy_fire_frame(world, shots, n - 1);
    }
}

/// Moves every enemy one tick along its pursuit. `targets[i]` is the point on
/// the orbit of the enemy at place `i` at the phase it is heading for.
pub fn enemy_movement_system(world: &mut World, targets: &Vec<Vector2>)
    ensures
        final(world)@ == old(world)@.after_enemy_movement(targets@),
{
    let ghost before = world@;
    let mut i: usize = 0;
    while i < world.enemies.len() && i < targets.len()
        invariant
            i <= world.enemies.len(),
            world.enemies.len() == before.enemies.len(),
            world@ == (WorldView { enemies: world.enemies@, ..before }),
            world.enemies@ =~= Seq::new(
                before.enemies.len(),
                |k: int|
                    if k < i && k < targets@.len() {
                        spec_advanced(before.enemies[k], targets@[k])
                    } else {
                        before.enemies[k]
                    },
            ),
        decreases world.enemies.len() - i,
    {
        let moved = advanced(world.enemies[i], targets[i]);
        world.enemies.set(i, moved);
        i += 1;
    }
    assert(world@.enemies =~= before.after_enemy_movement(targets@).enemies);
}

/// Tries to spawn an enemy, with `fresh` as the orbit to start if one is due.
pub fn enemy_spawn_with(world: &mut World, fresh: Formation)
    ensures
        final(world)@ == old(world)@.after_enemy_spawn(fresh),
{
    if world.max_enemy.0 >= MAX_ENEMY || world.next_id == u64::MAX {
        return;
    }
    let formation = world.formation_maker.make_with(fresh);
    spawn_enemy(world, formation);
}

/// Puts an enemy at the start of its orbit and counts it.
fn spawn_enemy(world: &mut World, formation: Formation)
    requires
        old(world).max_enemy.0 < MAX_ENEMY,
        old(world)@.has_handle(),
    ensures
        final(world)@ == (WorldView {
            enemies: old(world)@.enemies.push(
                Enemy {
                    id: old(world).next_id,
                    transform: Transform {
                        translation: formation.start,
                        layer: ACTOR_LAYER,
                        scale: SPRITE_SCALE,
                    },
                    formation,
                    size: SpriteSize { w: ENEMY_SIZE.0, h: ENEMY_SIZE.1 },
                },
            ),
            max_enemy: MaxEnemy((old(world).max_enemy.0 + 1) as u32),
            next_id: (old(world).next_id + 1) as u64,
            ..old(world)@
        }),
{
    let id = world.next_id;
    world.next_id = id + 1;
    world.enemies.push(
        Enemy {
            id,
            transform: Transform { translation: formation.start, layer: ACTOR_LAYER, scale: SPRITE_SCALE },
            formation,
            size: SpriteSize::from(ENEMY_SIZE),
        },
    );
    world.max_enemy.0 += 1;
}

/// Tries to spawn an enemy: at the cap nothing happens; below it an enemy
/// enters on the orbit that the formation maker hands out, which is drawn at
/// random for the window when the maker has to start one.
pub fn enemy_spawn_system(world: &mut World)
    requires
        old(world)@.win_size.wf(),
    ensures
        exists|fresh: Formation|
            fresh.fresh_for(old(world)@.win_size) && final(world)@ == #[trigger] old(
                world,
            )@.after_enemy_spawn(fresh),
{
    let ghost before = world@;
    proof {
        lemma_fresh_orbits(before.win_size);
    }
    let ghost some = choose|fresh: Formation| #[trigger] fresh.fresh_for(before.win_size);
    if world.max_enemy.0 >= MAX_ENEMY || world.next_id == u64::MAX {
        assert(world@ == before.after_enemy_spawn(some));
        return;
    }
    let win_size = world.win_size;
    let formation = world.formation_maker.make(&win_size);
    spawn_enemy(world, formation);
    proof {
        if before.formation_maker.has_room() {
            assert(world@ == before.after_enemy_spawn(some));
        } else {
            assert(world@ == before.after_enemy_spawn(formation));
        }
    }
}

/// Decides whether an enemy fires this tick: one time in sixty.
pub fn enemy_fire_criteria() -> bool {
    draw_ratio(&mut thread_rng(), 1, 60)
}

/// Lets the enemies fire as `shots` says: the enemy at place `i` fires if
/// `shots[i]` is set.
pub fn enemy_fire_with(world: &mut World, shots: &Vec<bool>)
    ensures
        final(world)@ == old(world)@.after_enemy_fire(shots@),
{
    let ghost before = world@;
    let mut i: usize = 0;
    while i < world.enemies.len()
        invariant
            i <= world.enemies.len(),
            world.enemies@ == before.enemies,
            world@ == before.after_enemy_fire_of(shots@, i as int),
        decreases world.enemies.len() - i,
    {
        if i < shots.len() && shots[i] {
            let laser = enemy_laser(world.enemies[i]);
            spawn_laser(world, laser);
        }
        i += 1;
    }
}

/// Lets every enemy fire with a chance of one in sixty, each on its own draw.
/// A shot starts at the enemy and flies down.
pub fn enemy_fire_system(world: &mut World)
    ensures
        exists|shots: Seq<bool>|
            shots.len() == old(world)@.enemies.len() && final(world)@ == #[trigger] old(
                world,
            )@.after_enemy_fire(shots),
{
    let mut shots: Vec<bool> = Vec::new();
    let mut i: usize = 0;
    while i < world.enemies.len()
        invariant
            i <= world.enemies.len(),
            shots.len() == i,
            world@ == old(world)@,
        decreases world.enemies.len() - i,
    {
        shots.push(enemy_fire_criteria());
        i += 1;
    }
    enemy_fire_with(world, &shots);
}

/// The pursuit of the enemies keeps the game well formed.
pub proof fn lemma_enemy_movement_keeps_wf(world: WorldView, targets: Seq<Vector2>)
    requires
        world.wf(),
    ensures
        world.after_enemy_movement(targets).wf(),
        world.precedes(world.after_enemy_movement(targets)),
{
    let after = world.after_enemy_movement(targets);
    assert(after.enemy_ids() =~= world.enemy_ids());
    lemma_same_handles_precede(world, after);
}

/// Spawning an enemy on a well-formed orbit keeps the game well formed.
pub proof fn lemma_enemy_spawn_keeps_wf(world: WorldView, fresh: Formation)
    requires
        world.wf(),
        fresh.wf(),
    ensures
        world.after_enemy_spawn(fresh).wf(),
        world.precedes(world.after_enemy_spawn(fresh)),
{
    let after = world.after_enemy_spawn(fresh);
    if world.max_enemy.0 < MAX_ENEMY && world.has_handle() {
        lemma_make_keeps_wf(world.formation_maker, fresh);
        assert(after.enemy_ids() =~= world.enemy_ids().push(world.next_id));
        lemma_push_new(world.enemy_ids(), world.next_id);
        assert(apart(after.laser_ids(), after.enemy_ids()));
        assert(apart(after.enemy_ids(), after.explosion_ids()));
        assert(apart(after.player_ids(), after.enemy_ids()));
    }
}

/// What an attempt to spawn an enemy does to the count: below the cap, and
/// with a handle left, the count rises by one and one enemy enters; else the
/// count, the enemies and the formation maker stay as they are. A count
/// within the cap stays within it.
pub proof fn lemma_enemy_spawn_counts(world: WorldView, fresh: Formation)
    ensures
        ({
            let after = world.after_enemy_spawn(fresh);
            let enters = world.max_enemy.0 < MAX_ENEMY && world.has_handle();
            &&& enters ==> after.max_enemy.0 == world.max_enemy.0 + 1
            &&& enters ==> after.enemies.len() == world.enemies.len() + 1
            &&& enters ==> after.enemies.last().formation == world.formation_maker.next_formation(fresh)
            &&& !enters ==> after == world
            &&& world.max_enemy.0 <= MAX_ENEMY ==> world.max_enemy.0 <= after.max_enemy.0 <= MAX_ENEMY
        }),
{
}

/// The fire of the enemies keeps the game well formed.
pub proof fn lemma_enemy_fire_keeps_wf(world: WorldView, shots: Seq<bool>, n: int)
    requires
        world.wf(),
    ensures
        world.after_enemy_fire_of(shots, n).wf(),
        world.precedes(world.after_enemy_fire_of(shots, n)),
    decreases n,
{
    if n > 0 {
        let before = world.after_enemy_fire_of(shots, n - 1);
        lemma_enemy_fire_keeps_wf(world, shots, n - 1);
        lemma_with_laser_keeps_wf(before, spec_enemy_laser(world.enemies[n - 1]));
        lemma_precedes_is_transitive(world, before, before.with_laser(spec_enemy_laser(world.enemies[n - 1])));
    }
}

} // verus!
