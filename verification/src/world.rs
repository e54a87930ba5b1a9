//! The whole state of a game.

use crate::components::{Enemy, Explosion, ExplosionToSpawn, Laser, Player};
use crate::constants::{MAX_ENEMY, SPAWN_INTERVAL};
use crate::enemy::formation::{FormationMaker, FormationMakerView};
use crate::handle::{
    apart,
    below,
    is_apart,
    is_below,
    is_rising,
    keys,
    lemma_part_inherits,
    part_of,
    rising,
};
use crate::resource::{GameData, GameState, MaxEnemy, PlayerState, Sound, WinSize, NEVER_SHOT};
use vstd::prelude::*;

verus! {

/// Everything the game knows between two ticks.
#[derive(Clone, Debug)]
pub struct World {
    /// Size of the window.
    pub win_size: WinSize,
    /// The mode the game is in.
    pub state: GameState,
    /// The mode asked for during the last tick; it takes effect when the
    /// next tick begins.
    pub next_state: Option<GameState>,
    /// The score.
    pub game_data: GameData,
    /// The count of enemies alive.
    pub max_enemy: MaxEnemy,
    /// Whether the player's ship is in play.
    pub player_state: PlayerState,
    /// The source of enemy orbits.
    pub formation_maker: FormationMaker,
    /// Time left until the next attempt to spawn an enemy, in milliseconds.
    pub enemy_spawn_timer: u32,
    /// Time left until the next attempt to spawn the player, in milliseconds.
    pub player_spawn_timer: u32,
    /// The player's ship, while it is in play.
    pub player: Option<Player>,
    /// The enemies alive, oldest first.
    pub enemies: Vec<Enemy>,
    /// The shots in flight, oldest first.
    pub lasers: Vec<Laser>,
    /// The explosions asked for and not yet started.
    pub explosions_to_spawn: Vec<ExplosionToSpawn>,
    /// The explosions playing.
    pub explosions: Vec<Explosion>,
    /// The sounds asked for during the last tick, in order.
    pub sounds: Vec<Sound>,
    /// The title text is on screen.
    pub welcome_text: bool,
    /// The pause text is on screen.
    pub paused_text: bool,
    /// The handle the next entity gets. Handles are given out in rising
    /// order, and none is left once the counter has reached its last value.
    pub next_id: u64,
}

/// The state of a game as contracts see it: sequences for vectors, and the
/// plain contents of the score and of the formation maker.
pub struct WorldView {
    pub win_size: WinSize,
    pub state: GameState,
    pub next_state: Option<GameState>,
    pub score: nat,
    pub max_enemy: MaxEnemy,
    pub player_state: PlayerState,
    pub formation_maker: FormationMakerView,
    pub enemy_spawn_timer: u32,
    pub player_spawn_timer: u32,
    pub player: Option<Player>,
    pub enemies: Seq<Enemy>,
    pub lasers: Seq<Laser>,
    pub explosions_to_spawn: Seq<ExplosionToSpawn>,
    pub explosions: Seq<Explosion>,
    pub sounds: Seq<Sound>,
    pub welcome_text: bool,
    pub paused_text: bool,
    pub next_id: u64,
}

impl View for World {
    type V = WorldView;

    open spec fn view(&self) -> WorldView {
        WorldView {
            win_size: self.win_size,
            state: self.state,
            next_state: self.next_state,
            score: self.game_data@,
            max_enemy: self.max_enemy,
            player_state: self.player_state,
            formation_maker: self.formation_maker@,
            enemy_spawn_timer: self.enemy_spawn_timer,
            player_spawn_timer: self.player_spawn_timer,
            player: self.player,
            enemies: self.enemies@,
            lasers: self.lasers@,
            explosions_to_spawn: self.explosions_to_spawn@,
            explosions: self.explosions@,
            sounds: self.sounds@,
            welcome_text: self.welcome_text,
            paused_text: self.paused_text,
            next_id: self.next_id,
        }
    }
}

/// Reads the handle of a shot.
pub open spec fn laser_key() -> spec_fn(Laser) -> u64 {
    |laser: Laser| laser.id
}

/// Reads the handle of an enemy.
pub open spec fn enemy_key() -> spec_fn(Enemy) -> u64 {
    |enemy: Enemy| enemy.id
}

/// Reads the handle of an explosion.
pub open spec fn explosion_key() -> spec_fn(Explosion) -> u64 {
    |explosion: Explosion| explosion.id
}

impl WorldView {
    /// The handles of the shots in flight, in order.
    pub open spec fn laser_ids(self) -> Seq<u64> {
        keys(self.lasers, laser_key())
    }

    /// The handles of the enemies alive, in order.
    pub open spec fn enemy_ids(self) -> Seq<u64> {
        keys(self.enemies, enemy_key())
    }

    /// The handles of the explosions playing, in order.
    pub open spec fn explosion_ids(self) -> Seq<u64> {
        keys(self.explosions, explosion_key())
    }

    /// The handle of the ship, if it is in play.
    pub open spec fn player_ids(self) -> Seq<u64> {
        match self.player {
            Some(player) => seq![player.id],
            None => Seq::empty(),
        }
    }

    /// No two entities share a handle, every handle in use was given out
    /// before, and in each list the handles rise.
    pub open spec fn handles_wf(self) -> bool {
        &&& rising(self.laser_ids())
        &&& rising(self.enemy_ids())
        &&& rising(self.explosion_ids())
        &&& below(self.laser_ids(), self.next_id)
        &&& below(self.enemy_ids(), self.next_id)
        &&& below(self.explosion_ids(), self.next_id)
        &&& below(self.player_ids(), self.next_id)
        &&& apart(self.laser_ids(), self.enemy_ids())
        &&& apart(self.laser_ids(), self.explosion_ids())
        &&& apart(self.enemy_ids(), self.explosion_ids())
        &&& apart(self.player_ids(), self.laser_ids())
        &&& apart(self.player_ids(), self.enemy_ids())
        &&& apart(self.player_ids(), self.explosion_ids())
    }

    /// The handle is the handle of an entity in the game.
    pub open spec fn in_use(self, id: u64) -> bool {
        ||| self.laser_ids().contains(id)
        ||| self.enemy_ids().contains(id)
        ||| self.explosion_ids().contains(id)
        ||| self.player_ids().contains(id)
    }

    /// `later` may follow this game: it has given out no fewer handles, and
    /// each of its shots is a shot that this game has too, or has a handle
    /// that this game had not given out yet; and so for its enemies, its
    /// explosions and its ship.
    pub open spec fn precedes(self, later: WorldView) -> bool {
        &&& self.next_id <= later.next_id
        &&& forall|id: u64| #[trigger]
            later.laser_ids().contains(id) ==> self.laser_ids().contains(id) || id >= self.next_id
        &&& forall|id: u64| #[trigger]
            later.enemy_ids().contains(id) ==> self.enemy_ids().contains(id) || id >= self.next_id
        &&& forall|id: u64| #[trigger]
            later.explosion_ids().contains(id) ==> self.explosion_ids().contains(id) || id >= self.next_id
        &&& forall|id: u64| #[trigger]
            later.player_ids().contains(id) ==> self.player_ids().contains(id) || id >= self.next_id
    }

    /// A handle is left for one more entity.
    pub open spec fn has_handle(self) -> bool {
        self.next_id < u64::MAX
    }

    /// The game after a handle was taken, if one was left.
    pub open spec fn after_take_id(self) -> WorldView {
        if self.has_handle() {
            WorldView { next_id: (self.next_id + 1) as u64, ..self }
        } else {
            self
        }
    }

    /// What holds of every game: the window has no negative side, the count
    /// of enemies is within its cap, the score fits its counter, there is a
    /// ship exactly while the player is in play, every orbit in use has
    /// positive radii, and the handles are in order.
    pub open spec fn wf(self) -> bool {
        &&& self.win_size.wf()
        &&& self.max_enemy.0 <= MAX_ENEMY
        &&& self.score <= u32::MAX
        &&& self.player_state.on <==> self.player is Some
        &&& self.formation_maker.wf()
        &&& forall|i: int| 0 <= i < self.enemies.len() ==> (#[trigger] self.enemies[i]).formation.wf()
        &&& self.handles_wf()
    }

    /// The game as it starts: the title screen, and nothing in play.
    pub open spec fn initial(win_size: WinSize) -> WorldView {
        WorldView {
            win_size,
            state: GameState::Welcome,
            next_state: None,
            score: 0,
            max_enemy: MaxEnemy(0),
            player_state: PlayerState { on: false, last_shot: NEVER_SHOT },
            formation_maker: FormationMakerView { template: None, members: 0 },
            enemy_spawn_timer: SPAWN_INTERVAL,
            player_spawn_timer: SPAWN_INTERVAL,
            player: None,
            enemies: Seq::empty(),
            lasers: Seq::empty(),
            explosions_to_spawn: Seq::empty(),
            explosions: Seq::empty(),
            sounds: Seq::empty(),
            welcome_text: true,
            paused_text: false,
            next_id: 0,
        }
    }
}

/// A game whose entities are entities of a game with handles in order, and
/// which has given out as many handles, has its handles in order and may
/// follow that game.
pub proof fn lemma_fewer_entities_keep_handles(before: WorldView, after: WorldView)
    requires
        before.handles_wf(),
        part_of(after.laser_ids(), before.laser_ids()),
        part_of(after.enemy_ids(), before.enemy_ids()),
        part_of(after.explosion_ids(), before.explosion_ids()),
        part_of(after.player_ids(), before.player_ids()),
        before.next_id == after.next_id,
    ensures
        after.handles_wf(),
        before.precedes(after),
{
    lemma_part_inherits(after.laser_ids(), before.laser_ids());
    lemma_part_inherits(after.enemy_ids(), before.enemy_ids());
    lemma_part_inherits(after.explosion_ids(), before.explosion_ids());
    lemma_part_inherits(after.player_ids(), before.player_ids());
    assert(below(after.laser_ids(), before.next_id));
    assert(below(after.enemy_ids(), before.next_id));
    assert(below(after.explosion_ids(), before.next_id));
    assert(below(after.player_ids(), before.next_id));
    assert(apart(after.laser_ids(), before.enemy_ids()));
    assert(apart(after.laser_ids(), before.explosion_ids()));
    assert(apart(after.enemy_ids(), before.explosion_ids()));
    assert(apart(after.player_ids(), before.laser_ids()));
    assert(apart(after.player_ids(), before.enemy_ids()));
    assert(apart(after.player_ids(), before.explosion_ids()));
}

/// What may follow a game that may follow another may follow that other
/// game too.
pub proof fn lemma_precedes_is_transitive(first: WorldView, second: WorldView, third: WorldView)
    requires
        first.precedes(second),
        second.precedes(third),
    ensures
        first.precedes(third),
{
    assert forall|id: u64| #[trigger] third.laser_ids().contains(id) implies first.laser_ids().contains(id) || id
        >= first.next_id by {
        if second.laser_ids().contains(id) {
        }
    }
    assert forall|id: u64| #[trigger] third.enemy_ids().contains(id) implies first.enemy_ids().contains(id) || id
        >= first.next_id by {
        if second.enemy_ids().contains(id) {
        }
    }
    assert forall|id: u64| #[trigger]
        third.explosion_ids().contains(id) implies first.explosion_ids().contains(id) || id >= first.next_id by {
        if second.explosion_ids().contains(id) {
        }
    }
    assert forall|id: u64| #[trigger] third.player_ids().contains(id) implies first.player_ids().contains(id)
        || id >= first.next_id by {
        if second.player_ids().contains(id) {
        }
    }
}

/// A game whose shots have the handles of the shots of another, and so for
/// its enemies, its explosions and its ship, and which has given out as many
/// handles, may follow that other game.
pub proof fn lemma_same_handles_precede(before: WorldView, after: WorldView)
    requires
        after.laser_ids() == before.laser_ids(),
        after.enemy_ids() == before.enemy_ids(),
        after.explosion_ids() == before.explosion_ids(),
        after.player_ids() == before.player_ids(),
        after.next_id == before.next_id,
    ensures
        before.precedes(after),
        before.handles_wf() ==> after.handles_wf(),
{
}

/// An entity that has left the game never comes back: a handle that a game
/// has given out and that is not in use in it is not in use in any game
/// that may follow.
pub proof fn lemma_gone_stays_gone(before: WorldView, after: WorldView, id: u64)
    requires
        before.precedes(after),
        id < before.next_id,
        !before.in_use(id),
    ensures
        !after.in_use(id),
{
}

impl World {
    /// The game as it starts, or nothing for a window with a negative side.
    pub fn new(win_size: WinSize) -> (r: Option<World>)
        ensures
            r is Some <==> win_size.wf(),
            r matches Some(world) ==> world@ == WorldView::initial(win_size) && world@.wf(),
    {
        if !win_size.is_wf() {
            return None;
        }
        let world = World {
            win_size,
            state: GameState::default(),
            next_state: None,
            game_data: GameData::new(),
            max_enemy: MaxEnemy(0),
            player_state: PlayerState::default(),
            formation_maker: FormationMaker::default(),
            enemy_spawn_timer: SPAWN_INTERVAL,
            player_spawn_timer: SPAWN_INTERVAL,
            player: None,
            enemies: Vec::new(),
            lasers: Vec::new(),
            explosions_to_spawn: Vec::new(),
            explosions: Vec::new(),
            sounds: Vec::new(),
            welcome_text: true,
            paused_text: false,
            next_id: 0,
        };
        Some(world)
    }

    /// Tells whether the game is well formed.
    pub fn is_wf(&self) -> (b: bool)
        ensures
            b == self@.wf(),
    {
        proof {
            self.game_data.lemma_score_bounded();
        }
        if !(self.win_size.is_wf() && self.max_enemy.0 <= MAX_ENEMY && (
        self.player_state.on == self.player.is_some()) && self.formation_maker.is_wf()) {
            return false;
        }
        let mut lasers: Vec<u64> = Vec::new();
        let mut i: usize = 0;
        while i < self.lasers.len()
            invariant
                i <= self.lasers.len(),
                lasers@ =~= Seq::new(i as nat, |k: int| laser_key()(self.lasers@[k])),
            decreases self.lasers.len() - i,
        {
            lasers.push(self.lasers[i].id);
            i += 1;
        }
        let mut explosions: Vec<u64> = Vec::new();
        let mut i: usize = 0;
        while i < self.explosions.len()
            invariant
                i <= self.explosions.len(),
                explosions@ =~= Seq::new(i as nat, |k: int| explosion_key()(self.explosions@[k])),
            decreases self.explosions.len() - i,
        {
            explosions.push(self.explosions[i].id);
            i += 1;
        }
        let mut enemies: Vec<u64> = Vec::new();
        let mut i: usize = 0;
        while i < self.enemies.len()
            invariant
                i <= self.enemies.len(),
                enemies@ =~= Seq::new(i as nat, |k: int| enemy_key()(self.enemies@[k])),
                forall|k: int| 0 <= k < i ==> (#[trigger] self.enemies@[k]).formation.wf(),
            decreases self.enemies.len() - i,
        {
            if !self.enemies[i].formation.is_wf() {
                assert(!self@.enemies[i as int].formation.wf());
                return false;
            }
            enemies.push(self.enemies[i].id);
            i += 1;
        }
        let mut player: Vec<u64> = Vec::new();
        if let Some(ship) = self.player {
            player.push(ship.id);
        }
        assert(lasers@ =~= self@.laser_ids());
        assert(enemies@ =~= self@.enemy_ids());
        assert(explosions@ =~= self@.explosion_ids());
        assert(player@ =~= self@.player_ids());
        is_rising(&lasers) && is_rising(&enemies) && is_rising(&explosions) && is_below(&lasers, self.next_id)
            && is_below(&enemies, self.next_id) && is_below(&explosions, self.next_id) && is_below(
            &player,
            self.next_id,
        ) && is_apart(&lasers, &enemies) && is_apart(&lasers, &explosions) && is_apart(&enemies, &explosions)
            && is_apart(&player, &lasers) && is_apart(&player, &enemies) && is_apart(&player, &explosions)
    }

    /// Takes the next handle, if one is left.
    pub fn take_id(&mut self) -> (id: Option<u64>)
        ensures
            id == (if old(self)@.has_handle() {
                Some(old(self).next_id)
            } else {
                None
            }),
            final(self)@ == old(self)@.after_take_id(),
    {
        let id = self.next_id;
        if id < u64::MAX {
            self.next_id = id + 1;
            Some(id)
        } else {
            None
        }
    }
}

} // verus!
