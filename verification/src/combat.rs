//! Shots against ships.

use crate::collision::{overlaps, spec_overlaps};
use crate::components::{Enemy, ExplosionToSpawn, Laser, Origin, Player};
use crate::constants::MAX_ENEMY;
use crate::despawn::{despawned, DespawnSet};
use crate::handle::{
    lemma_part_of_itself,
    lemma_remove_is_part,
    lemma_without_is_part,
    part_of,
};
use crate::resource::{GameState, MaxEnemy, PlayerState, Sound, Time};
use crate::sequence::{
    count,
    lemma_count_none,
    lemma_count_one_more,
    lemma_without_len,
    lemma_without_origin,
    retain,
    without,
};
use crate::world::{
    enemy_key,
    laser_key,
    lemma_fewer_entities_keep_handles,
    lemma_precedes_is_transitive,
    World,
    WorldView,
};
use vstd::prelude::*;

verus! {

/// The first enemy from index `from` on that is not destroyed yet and that
/// the shot overlaps, or the number of enemies where there is none.
pub open spec fn first_target(laser: Laser, enemies: Seq<Enemy>, gone: Set<u64>, from: int) -> int
    decreases enemies.len() - from,
{
    if from < 0 || from >= enemies.len() {
        enemies.len() as int
    } else if !gone.contains(enemies[from].id) && spec_overlaps(
        laser.transform,
        laser.size,
        enemies[from].transform,
        enemies[from].size,
    ) {
        from
    } else {
        first_target(laser, enemies, gone, from + 1)
    }
}

/// What `first_target` finds: no enemy before it is one that is not
/// destroyed yet and under the shot, and it is one itself unless it is the
/// number of enemies.
pub proof fn lemma_first_target(laser: Laser, enemies: Seq<Enemy>, gone: Set<u64>, from: int)
    requires
        0 <= from <= enemies.len(),
    ensures
        from <= first_target(laser, enemies, gone, from) <= enemies.len(),
        forall|j: int|
            from <= j < first_target(laser, enemies, gone, from) ==> gone.contains(
                (#[trigger] enemies[j]).id,
            ) || !spec_overlaps(laser.transform, laser.size, enemies[j].transform, enemies[j].size),
        first_target(laser, enemies, gone, from) < enemies.len() ==> {
            let j = first_target(laser, enemies, gone, from);
            !gone.contains(enemies[j].id) && spec_overlaps(
                laser.transform,
                laser.size,
                enemies[j].transform,
                enemies[j].size,
            )
        },
    decreases enemies.len() - from,
{
    if from < enemies.len() {
        lemma_first_target(laser, enemies, gone, from + 1);
    }
}

/// How the player's shots fared against the enemies.
pub struct Volley {
    /// The handles of the enemies destroyed and of the shots spent on them.
    pub gone: Set<u64>,
    /// An explosion for each destroyed enemy, at its place, in the order in
    /// which they fell.
    pub blasts: Seq<ExplosionToSpawn>,
}

/// The shot at place `at` destroys an enemy, given what the shots before it
/// have destroyed: it is a shot of the player, it is not spent, and there is
/// an enemy under it that is not destroyed yet.
pub open spec fn strikes(lasers: Seq<Laser>, enemies: Seq<Enemy>, gone: Set<u64>, at: int) -> bool {
    &&& lasers[at].origin == Origin::FromPlayer
    &&& !gone.contains(lasers[at].id)
    &&& first_target(lasers[at], enemies, gone, 0) < enemies.len()
}

/// The outcome of the first `n` shots. The shots are taken in order. A shot
/// of the player destroys the first enemy it overlaps that no earlier shot
/// has destroyed, and is spent on it; a shot that finds no such enemy, and
/// any shot of an enemy, flies on.
pub open spec fn volley(lasers: Seq<Laser>, enemies: Seq<Enemy>, n: int) -> Volley
    decreases n,
{
    if n <= 0 {
        Volley { gone: Set::empty(), blasts: Seq::empty() }
    } else {
        let before = volley(lasers, enemies, n - 1);
        if strikes(lasers, enemies, before.gone, n - 1) {
            let enemy = enemies[first_target(lasers[n - 1], enemies, before.gone, 0)];
            Volley {
                gone: before.gone.insert(enemy.id).insert(lasers[n - 1].id),
                blasts: before.blasts.push(ExplosionToSpawn(enemy.transform.translation)),
            }
        } else {
            before
        }
    }
}

/// Explosions are only ever added as more shots are taken into account.
pub proof fn lemma_volley_grows(lasers: Seq<Laser>, enemies: Seq<Enemy>, m: int, n: int)
    requires
        0 <= m <= n,
    ensures
        volley(lasers, enemies, m).blasts.len() <= volley(lasers, enemies, n).blasts.len(),
    decreases n - m,
{
    if m < n {
        lemma_volley_grows(lasers, enemies, m, n - 1);
    }
}

impl WorldView {
    /// The outcome of all shots in flight against the enemies alive.
    pub open spec fn volley(self) -> Volley {
        volley(self.lasers, self.enemies, self.lasers.len() as int)
    }

    /// The number of enemies the shots in flight destroy.
    pub open spec fn kills(self) -> nat {
        self.volley().blasts.len()
    }

    /// For each shot in flight, whether it is spent in the volley.
    pub open spec fn spent_lasers(self) -> Seq<bool> {
        Seq::new(self.lasers.len(), |i: int| self.volley().gone.contains(self.lasers[i].id))
    }

    /// For each enemy alive, whether it is destroyed in the volley.
    pub open spec fn fallen_enemies(self) -> Seq<bool> {
        Seq::new(self.enemies.len(), |j: int| self.volley().gone.contains(self.enemies[j].id))
    }

    /// The game after the player's shots have met the enemies: the spent
    /// shots and the destroyed enemies are gone, and for each destroyed enemy
    /// the count of enemies goes down by one, though not below zero, the
    /// score goes up by one, an explosion is asked for at its place, and the
    /// sound of its explosion is asked for.
    pub open spec fn after_player_laser_hit_enemy(self) -> WorldView {
        let kills = self.kills();
        WorldView {
            lasers: without(self.lasers, self.spent_lasers()),
            enemies: without(self.enemies, self.fallen_enemies()),
            max_enemy: MaxEnemy(
                if kills >= self.max_enemy.0 {
                    0
                } else {
                    (self.max_enemy.0 - kills) as u32
                },
            ),
            score: self.score + kills,
            explosions_to_spawn: self.explosions_to_spawn + self.volley().blasts,
            sounds: self.sounds + Seq::new(kills, |i: int| Sound::EnemyExplosion),
            ..self
        }
    }
}

/// The first shot of an enemy from index `from` on that overlaps the ship,
/// or the number of shots where there is none.
pub open spec fn first_strike(player: Player, lasers: Seq<Laser>, from: int) -> int
    decreases lasers.len() - from,
{
    if from < 0 || from >= lasers.len() {
        lasers.len() as int
    } else if lasers[from].origin == Origin::FromEnemy && spec_overlaps(
        player.transform,
        player.size,
        lasers[from].transform,
        lasers[from].size,
    ) {
        from
    } else {
        first_strike(player, lasers, from + 1)
    }
}

/// What `first_strike` finds: no shot before it is a shot of an enemy over
/// the ship, and it is one itself unless it is the number of shots.
pub proof fn lemma_first_strike(player: Player, lasers: Seq<Laser>, from: int)
    requires
        0 <= from <= lasers.len(),
    ensures
        from <= first_strike(player, lasers, from) <= lasers.len(),
        forall|i: int|
            from <= i < first_strike(player, lasers, from) ==> (#[trigger] lasers[i]).origin
                != Origin::FromEnemy || !spec_overlaps(
                player.transform,
                player.size,
                lasers[i].transform,
                lasers[i].size,
            ),
        first_strike(player, lasers, from) < lasers.len() ==> {
            let i = first_strike(player, lasers, from);
            lasers[i].origin == Origin::FromEnemy && spec_overlaps(
                player.transform,
                player.size,
                lasers[i].transform,
                lasers[i].size,
            )
        },
    decreases lasers.len() - from,
{
    if from < lasers.len() {
        lemma_first_strike(player, lasers, from + 1);
    }
}

impl WorldView {
    /// A shot of an enemy overlaps the ship.
    pub open spec fn player_is_hit(self) -> bool {
        self.player is Some && first_strike(self.player->0, self.lasers, 0) < self.lasers.len()
    }

    /// The game after the enemies' shots have met the ship. The first shot
    /// of an enemy that overlaps the ship destroys it: the ship and that shot
    /// are gone, the time of death is noted, the score is zero, the title
    /// screen is asked for, and an explosion at the place of the ship and the
    /// sound of it are asked for. No other shot counts.
    pub open spec fn after_enemy_laser_hit_player(self, time: Time) -> WorldView {
        if self.player_is_hit() {
            let player = self.player->0;
            WorldView {
                sounds: self.sounds.push(Sound::PlayerExplosion),
                score: 0,
                next_state: Some(GameState::Welcome),
                player: None,
                player_state: PlayerState { on: false, last_shot: time.elapsed },
                lasers: self.lasers.remove(first_strike(player, self.lasers, 0)),
                explosions_to_spawn: self.explosions_to_spawn.push(
                    ExplosionToSpawn(player.transform.translation),
                ),
                ..self
            }
        } else {
            self
        }
    }
}

/// Finds the first enemy under a shot that is not destroyed yet.
fn find_target(laser: &Laser, enemies: &Vec<Enemy>, despawn_entities: &DespawnSet) -> (target: usize)
    ensures
        target == first_target(*laser, enemies@, despawned(*despawn_entities), 0),
{
    let mut j: usize = 0;
    while j < enemies.len()
        invariant
            j <= enemies.len(),
            first_target(*laser, enemies@, despawned(*despawn_entities), 0) == first_target(
                *laser,
                enemies@,
                despawned(*despawn_entities),
                j as int,
            ),
        decreases enemies.len() - j,
    {
        let enemy = &enemies[j];
        if !despawn_entities.contains(enemy.id) && overlaps(
            laser.transform,
            laser.size,
            enemy.transform,
            enemy.size,
        ) {
            return j;
        }
        j += 1;
    }
    j
}

/// Marks the shots whose handle is in the set.
fn mark_lasers(lasers: &Vec<Laser>, despawn_entities: &DespawnSet) -> (marks: Vec<bool>)
    ensures
        marks@ == Seq::new(lasers@.len(), |i: int| despawned(*despawn_entities).contains(lasers@[i].id)),
{
    let mut marks: Vec<bool> = Vec::new();
    let mut i: usize = 0;
    while i < lasers.len()
        invariant
            i <= lasers.len(),
            marks@ =~= Seq::new(i as nat, |k: int| despawned(*despawn_entities).contains(lasers@[k].id)),
        decreases lasers.len() - i,
    {
        marks.push(despawn_entities.contains(lasers[i].id));
        i += 1;
    }
    marks
}

/// Marks the enemies whose handle is in the set.
fn mark_enemies(enemies: &Vec<Enemy>, despawn_entities: &DespawnSet) -> (marks: Vec<bool>)
    ensures
        marks@ == Seq::new(enemies@.len(), |i: int| despawned(*despawn_entities).contains(enemies@[i].id)),
{
    let mut marks: Vec<bool> = Vec::new();
    let mut i: usize = 0;
    while i < enemies.len()
        invariant
            i <= enemies.len(),
            marks@ =~= Seq::new(i as nat, |k: int| despawned(*despawn_entities).contains(enemies@[k].id)),
        decreases enemies.len() - i,
    {
        marks.push(despawn_entities.contains(enemies[i].id));
        i += 1;
    }
    marks
}

/// Lets the player's shots destroy enemies. A shot destroys the first enemy
/// under it that is still there, and is spent on it.
pub fn player_laser_hit_enemy_system(world: &mut World)
    requires
        old(world)@.score + old(world)@.kills() <= u32::MAX,
    ensures
        final(world)@ == old(world)@.after_player_laser_hit_enemy(),
{
    let ghost before = world@;
    let mut despawn_entities = DespawnSet::new();
    let mut i: usize = 0;
    while i < world.lasers.len()
        invariant
            i <= world.lasers.len(),
            before.score + before.kills() <= u32::MAX,
            world.lasers@ == before.lasers,
            world.enemies@ == before.enemies,
            despawned(despawn_entities) == volley(before.lasers, before.enemies, i as int).gone,
            world@ == (WorldView {
                max_enemy: world.max_enemy,
                score: world.game_data@,
                explosions_to_spawn: world.explosions_to_spawn@,
                sounds: world.sounds@,
                ..before
            }),
            ({
                let kills = volley(before.lasers, before.enemies, i as int).blasts.len();
                &&& world.max_enemy.0 == if kills >= before.max_enemy.0 {
                    0
                } else {
                    before.max_enemy.0 - kills
                }
                &&& world.game_data@ == before.score + kills
                &&& world.sounds@ =~= before.sounds + Seq::new(kills, |i: int| Sound::EnemyExplosion)
            }),
            world.explosions_to_spawn@ =~= before.explosions_to_spawn + volley(
                before.lasers,
                before.enemies,
                i as int,
            ).blasts,
        decreases world.lasers.len() - i,
    {
        let laser = world.lasers[i];
        if laser.origin == Origin::FromPlayer && !despawn_entities.contains(laser.id) {
            let target = find_target(&laser, &world.enemies, &despawn_entities);
            if target < world.enemies.len() {
                proof {
                    lemma_volley_grows(before.lasers, before.enemies, i + 1, before.lasers.len() as int);
                }
                let enemy = world.enemies[target];
                if world.max_enemy.0 != 0 {
                    world.max_enemy.0 -= 1;
                }
                world.game_data.add_score();
                world.sounds.push(Sound::EnemyExplosion);
                despawn_entities.insert(enemy.id);
                despawn_entities.insert(laser.id);
                world.explosions_to_spawn.push(ExplosionToSpawn(enemy.transform.translation));
            }
        }
        i += 1;
    }
    let spent = mark_lasers(&world.lasers, &despawn_entities);
    let fallen = mark_enemies(&world.enemies, &despawn_entities);
    assert(spent@ =~= before.spent_lasers());
    assert(fallen@ =~= before.fallen_enemies());
    world.lasers = retain(&world.lasers, &spent);
    world.enemies = retain(&world.enemies, &fallen);
}

/// Finds the first shot of an enemy over the ship.
fn find_strike(player: &Player, lasers: &Vec<Laser>) -> (strike: usize)
    ensures
        strike == first_strike(*player, lasers@, 0),
{
    let mut i: usize = 0;
    while i < lasers.len()
        invariant
            i <= lasers.len(),
            first_strike(*player, lasers@, 0) == first_strike(*player, lasers@, i as int),
        decreases lasers.len() - i,
    {
        let laser = &lasers[i];
        if laser.origin == Origin::FromEnemy && overlaps(
            player.transform,
            player.size,
            laser.transform,
            laser.size,
        ) {
            return i;
        }
        i += 1;
    }
    i
}

/// Lets the enemies' shots destroy the ship. One hit is dealt with, and the
/// game goes back to the title screen with a score of zero.
pub fn enemy_laser_hit_player_system(world: &mut World, time: &Time)
    ensures
        final(world)@ == old(world)@.after_enemy_laser_hit_player(*time),
{
    if let Some(player) = world.player {
        let strike = find_strike(&player, &world.lasers);
        if strike < world.lasers.len() {
            world.sounds.push(Sound::PlayerExplosion);
            world.game_data.reset_score();
            world.next_state = Some(GameState::Welcome);
            world.player = None;
            world.player_state.shot(time.elapsed);
            world.lasers.remove(strike);
            world.explosions_to_spawn.push(ExplosionToSpawn(player.transform.translation));
        }
    }
}

/// The shots of a volley never destroy more enemies than there are shots.
pub proof fn lemma_kills_bounded(lasers: Seq<Laser>, enemies: Seq<Enemy>, n: int)
    requires
        0 <= n,
    ensures
        volley(lasers, enemies, n).blasts.len() <= n,
    decreases n,
{
    if n > 0 {
        lemma_kills_bounded(lasers, enemies, n - 1);
    }
}

/// The collision systems keep the game well formed, as long as the score has
/// room for the enemies destroyed.
pub proof fn lemma_collision_keeps_wf(world: WorldView, time: Time)
    requires
        world.wf(),
        world.score + world.kills() <= u32::MAX,
    ensures
        world.after_player_laser_hit_enemy().wf(),
        world.after_collision(time).wf(),
        world.precedes(world.after_collision(time)),
{
    let hit = world.after_player_laser_hit_enemy();
    assert forall|k: int| 0 <= k < hit.enemies.len() implies (#[trigger] hit.enemies[k]).formation.wf() by {
        lemma_without_origin(world.enemies, world.fallen_enemies(), k);
    }
    lemma_without_is_part(world.lasers, world.spent_lasers(), laser_key());
    lemma_without_is_part(world.enemies, world.fallen_enemies(), enemy_key());
    lemma_part_of_itself(world.explosion_ids());
    lemma_part_of_itself(world.player_ids());
    lemma_fewer_entities_keep_handles(world, hit);
    assert(hit.wf());
    let struck = hit.after_enemy_laser_hit_player(time);
    if hit.player_is_hit() {
        let player = hit.player->0;
        lemma_first_strike(player, hit.lasers, 0);
        lemma_remove_is_part(hit.lasers, first_strike(player, hit.lasers, 0), laser_key());
        lemma_part_of_itself(hit.enemy_ids());
        lemma_part_of_itself(hit.explosion_ids());
        assert(part_of(struck.player_ids(), hit.player_ids())) by {
            let places = Seq::<int>::empty();
            assert(places.len() == struck.player_ids().len());
        }
        lemma_fewer_entities_keep_handles(hit, struck);
        lemma_precedes_is_transitive(world, hit, struck);
    }
}

/// For each of `ids`, whether the handle is among `gone`.
pub open spec fn marks(ids: Seq<u64>, gone: Set<u64>) -> Seq<bool> {
    Seq::new(ids.len(), |i: int| gone.contains(ids[i]))
}

/// A shot destroys one enemy at most. Taking one more shot into account
/// either changes nothing, or it asks for one more explosion and adds two
/// handles to those that are gone: that of the shot, and that of one enemy
/// that was not gone and that the shot overlaps.
pub proof fn lemma_one_enemy_per_shot(lasers: Seq<Laser>, enemies: Seq<Enemy>, n: int)
    requires
        0 < n <= lasers.len(),
    ensures
        ({
            let before = volley(lasers, enemies, n - 1);
            let after = volley(lasers, enemies, n);
            ||| after == before
            ||| exists|j: int|
                {
                    &&& 0 <= j < enemies.len()
                    &&& !before.gone.contains(enemies[j].id)
                    &&& spec_overlaps(lasers[n - 1].transform, lasers[n - 1].size, enemies[j].transform, enemies[j].size)
                    &&& after.gone == before.gone.insert(#[trigger] enemies[j].id).insert(lasers[n - 1].id)
                    &&& after.blasts == before.blasts.push(ExplosionToSpawn(enemies[j].transform.translation))
                }
        }),
{
    let before = volley(lasers, enemies, n - 1);
    lemma_first_target(lasers[n - 1], enemies, before.gone, 0);
}

/// In a game whose handles are in order, as many shots are spent and as many
/// enemies are destroyed as explosions are asked for, by the first `n` shots.
proof fn lemma_volley_counts(world: WorldView, n: int)
    requires
        world.handles_wf(),
        0 <= n <= world.lasers.len(),
    ensures
        ({
            let outcome = volley(world.lasers, world.enemies, n);
            &&& count(marks(world.laser_ids(), outcome.gone)) == outcome.blasts.len()
            &&& count(marks(world.enemy_ids(), outcome.gone)) == outcome.blasts.len()
            &&& forall|i: int| n <= i < world.lasers.len() ==> !outcome.gone.contains(#[trigger] world.lasers[i].id)
        }),
    decreases n,
{
    let lasers = world.lasers;
    let enemies = world.enemies;
    let laser_ids = world.laser_ids();
    let enemy_ids = world.enemy_ids();
    if n == 0 {
        lemma_count_none(marks(laser_ids, Set::empty()));
        lemma_count_none(marks(enemy_ids, Set::empty()));
    } else {
        lemma_volley_counts(world, n - 1);
        let before = volley(lasers, enemies, n - 1);
        let after = volley(lasers, enemies, n);
        let laser = lasers[n - 1];
        assert(laser_ids[n - 1] == laser.id);
        lemma_first_target(laser, enemies, before.gone, 0);
        assert forall|i: int| n <= i < lasers.len() implies !after.gone.contains(#[trigger] lasers[i].id) by {
            assert(!before.gone.contains(lasers[i].id));
            assert(laser_ids[i] == lasers[i].id);
            assert(laser_ids[n - 1] < laser_ids[i]);
            if strikes(lasers, enemies, before.gone, n - 1) {
                let target = first_target(laser, enemies, before.gone, 0);
                assert(laser_ids[i] != enemy_ids[target]);
            }
        }
        if strikes(lasers, enemies, before.gone, n - 1) {
            let target = first_target(laser, enemies, before.gone, 0);
            let enemy = enemies[target];
            assert(enemy_ids[target] == enemy.id);
            assert forall|i: int| 0 <= i < lasers.len() && i != n - 1 implies marks(laser_ids, before.gone)[i]
                == marks(laser_ids, after.gone)[i] by {
                assert(laser_ids[i] != laser_ids[n - 1]);
                assert(laser_ids[i] != enemy_ids[target]);
            }
            lemma_count_one_more(marks(laser_ids, before.gone), marks(laser_ids, after.gone), n - 1);
            assert forall|j: int| 0 <= j < enemies.len() && j != target implies marks(enemy_ids, before.gone)[j]
                == marks(enemy_ids, after.gone)[j] by {
                assert(enemy_ids[j] != enemy_ids[target]);
                assert(laser_ids[n - 1] != enemy_ids[j]);
            }
            lemma_count_one_more(marks(enemy_ids, before.gone), marks(enemy_ids, after.gone), target);
        }
    }
}

/// One shot, one enemy: in a game whose handles are in order, a pass of the
/// player's shots takes away as many shots as enemies, and for each of them
/// it gives one point, asks for one explosion and asks for one sound.
pub proof fn lemma_kills_match(world: WorldView)
    requires
        world.handles_wf(),
    ensures
        ({
            let after = world.after_player_laser_hit_enemy();
            &&& after.lasers.len() + world.kills() == world.lasers.len()
            &&& after.enemies.len() + world.kills() == world.enemies.len()
            &&& after.score == world.score + world.kills()
            &&& after.explosions_to_spawn.len() == world.explosions_to_spawn.len() + world.kills()
            &&& after.sounds.len() == world.sounds.len() + world.kills()
        }),
{
    lemma_volley_counts(world, world.lasers.len() as int);
    assert(world.spent_lasers() =~= marks(world.laser_ids(), world.volley().gone));
    assert(world.fallen_enemies() =~= marks(world.enemy_ids(), world.volley().gone));
    lemma_without_len(world.lasers, world.spent_lasers());
    lemma_without_len(world.enemies, world.fallen_enemies());
}

/// A pass of the player's shots never raises the count of enemies: the count
/// falls by the number of enemies destroyed and stops at zero. A count within
/// the cap stays within it.
pub proof fn lemma_kills_lower_count(world: WorldView)
    ensures
        ({
            let before = world.max_enemy.0;
            let after = world.after_player_laser_hit_enemy().max_enemy.0;
            &&& after <= before
            &&& after == if world.kills() >= before {
                0
            } else {
                before - world.kills()
            }
            &&& before <= MAX_ENEMY ==> after <= MAX_ENEMY
        }),
{
}

/// One shot of the player against one enemy: the enemy falls exactly when
/// the two sprites overlap, whichever of the two is named first.
pub proof fn lemma_single_shot(laser: Laser, enemy: Enemy)
    requires
        laser.origin == Origin::FromPlayer,
    ensures
        ({
            let kills = volley(seq![laser], seq![enemy], 1).blasts.len();
            let hit = spec_overlaps(laser.transform, laser.size, enemy.transform, enemy.size);
            &&& kills == if hit {
                1nat
            } else {
                0nat
            }
            &&& hit == spec_overlaps(enemy.transform, enemy.size, laser.transform, laser.size)
        }),
{
    let lasers = seq![laser];
    let enemies = seq![enemy];
    reveal_with_fuel(volley, 2);
    reveal_with_fuel(first_target, 2);
    assert(lasers[0] == laser && enemies[0] == enemy);
}

} // verus!
