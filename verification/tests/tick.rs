use invaders::components::{
    Enemy, Explosion, ExplosionTimer, Laser, Movable, Origin, Player, SpriteSize, Velocity,
};
use invaders::enemy::formation::Formation;
use invaders::geometry::{Transform, Vector2};
use invaders::resource::{GameState, Input, MaxEnemy, PlayerState, Sound, Time, WinSize};
use invaders::world::World;

fn window() -> WinSize {
    WinSize { w: 598 * 12, h: 676 * 12 }
}

fn orbit(tag: i32) -> Formation {
    Formation {
        start: Vector2::new(-4788, tag),
        radius: Vector2::new(1000, 1200),
        pivot: Vector2::new(300, 600),
        speed: 500,
        angle: 0,
    }
}

fn enemy(id: u64, x: i32, y: i32, formation: Formation) -> Enemy {
    Enemy {
        id,
        transform: Transform { translation: Vector2::new(x, y), layer: 10, scale: 50 },
        formation,
        size: SpriteSize { w: 1728, h: 900 },
    }
}

fn ship(id: u64, x: i32, vx: i32) -> Player {
    Player {
        id,
        transform: Transform { translation: Vector2::new(x, -3771), layer: 10, scale: 50 },
        velocity: Velocity::new(vx, 0),
        movable: Movable { auto_despawn: false },
        size: SpriteSize { w: 1728, h: 900 },
    }
}

fn shot(id: u64, x: i32, y: i32, origin: Origin) -> Laser {
    let (size, vy) = match origin {
        Origin::FromPlayer => (SpriteSize { w: 108, h: 648 }, 1),
        Origin::FromEnemy => (SpriteSize { w: 204, h: 660 }, -1),
    };
    Laser {
        id,
        transform: Transform { translation: Vector2::new(x, y), layer: 1, scale: 50 },
        velocity: Velocity::new(0, vy),
        movable: Movable { auto_despawn: true },
        size,
        origin,
    }
}

#[test]
fn one_tick_of_play_step_by_step() {
    let top = 676 * 12 / 2 + 2400;
    let mut game = World::new(window()).unwrap();
    game.state = GameState::InGame;
    game.welcome_text = false;
    game.player = Some(ship(0, 0, 0));
    game.player_state.spawned();
    game.enemies.push(enemy(1, 1000, 2000, orbit(1)));
    game.lasers.push(shot(2, 1000, 1500, Origin::FromPlayer));
    game.lasers.push(shot(3, 0, -3000, Origin::FromEnemy));
    game.lasers.push(shot(4, 0, top - 50, Origin::FromPlayer));
    game.next_id = 5;
    game.max_enemy = MaxEnemy(1);
    game.enemy_spawn_timer = 10;
    game.sounds.push(Sound::PlayerExplosion);
    assert!(game.can_tick());

    let keys = Input { left: false, right: true, pause: false, confirm: true, resume: true, fire: true };
    let time = Time { elapsed: 1000, delta: 17 };
    game.tick_with(&keys, &time, &vec![Vector2::new(1000, 1000)], orbit(7), &vec![true, true]);

    // Motion: the ship heads right and moves; the shots fly, and the one
    // near the edge is lost; the enemy closes in and its phase moves on.
    assert_eq!(game.player, Some(ship(0, 100, 1)));
    // Collision: the player's shot, now at 1600, reaches the enemy at 1900.
    assert_eq!(game.game_data.get_score(), 1);
    // Lifecycle: the timer ran out, the count was below the cap, a new group
    // starts on the orbit on offer; its first enemy fires; the ship fires.
    assert_eq!(game.enemies, vec![enemy(5, -4788, 7, orbit(7))]);
    assert_eq!(game.max_enemy, MaxEnemy(1));
    assert_eq!(game.enemy_spawn_timer, 500);
    assert_eq!(game.player_spawn_timer, 483);
    assert!(game.formation_maker.has_room());
    assert_eq!(
        game.lasers,
        vec![
            shot(3, 0, -3100, Origin::FromEnemy),
            shot(6, -4788, 7, Origin::FromEnemy),
            shot(7, 472, -3591, Origin::FromPlayer),
            shot(8, -272, -3591, Origin::FromPlayer),
        ]
    );
    assert!(game.explosions_to_spawn.is_empty());
    assert_eq!(
        game.explosions,
        vec![Explosion {
            id: 9,
            transform: Transform { translation: Vector2::new(1000, 1900), layer: 10, scale: 100 },
            timer: ExplosionTimer(33),
            index: 0,
        }]
    );
    assert_eq!(game.next_id, 10);
    assert_eq!(game.sounds, vec![Sound::EnemyExplosion, Sound::PlayerLaser]);
    assert_eq!(game.state, GameState::InGame);
    assert_eq!(game.next_state, None);
    assert_eq!(game.player_state, PlayerState { on: true, last_shot: -1 });
    assert!(!game.welcome_text && !game.paused_text);
    assert!(game.is_wf());
}

#[test]
fn enemy_that_is_not_hit_moves_on_its_way() {
    let mut game = World::new(window()).unwrap();
    game.state = GameState::InGame;
    game.welcome_text = false;
    game.enemies.push(enemy(0, 1000, 2000, orbit(1)));
    game.next_id = 1;
    game.max_enemy = MaxEnemy(1);
    let keys = Input { left: false, right: false, pause: false, confirm: false, resume: false, fire: false };
    let time = Time { elapsed: 0, delta: 17 };
    game.tick_with(&keys, &time, &vec![Vector2::new(1000, 1000)], orbit(7), &vec![false]);
    let mut moved = orbit(1);
    moved.angle = 1;
    assert_eq!(game.enemies, vec![enemy(0, 1000, 1900, moved)]);
    assert_eq!(game.max_enemy, MaxEnemy(1));
    assert!(game.lasers.is_empty());
    assert_eq!(game.enemy_spawn_timer, 483);
    assert_eq!(game.next_id, 1);
    assert!(game.player.is_none());
}

#[test]
fn ticks_off_the_field_do_not_need_chance() {
    let keys = Input { left: true, right: false, pause: true, confirm: true, resume: false, fire: true };
    let time = Time { elapsed: 5, delta: 600 };
    let mut by_chance = World::new(window()).unwrap();
    let mut given = World::new(window()).unwrap();
    by_chance.tick(&keys, &time, &vec![]);
    given.tick_with(&keys, &time, &vec![], orbit(1), &vec![true]);
    assert_eq!(by_chance.state, given.state);
    assert_eq!(by_chance.next_state, Some(GameState::InGame));
    assert_eq!(given.next_state, Some(GameState::InGame));
    assert_eq!(given.enemy_spawn_timer, 500);
    assert!(given.enemies.is_empty() && by_chance.enemies.is_empty());
    assert_eq!(given.next_id, 0);
}

#[test]
fn handles_are_never_given_out_twice() {
    let mut game = World::new(window()).unwrap();
    let mut seen: Vec<u64> = Vec::new();
    let mut gone: Vec<u64> = Vec::new();
    let start = Input { left: false, right: false, pause: false, confirm: true, resume: false, fire: false };
    game.tick_with(&start, &Time { elapsed: 0, delta: 17 }, &vec![], orbit(0), &vec![]);
    for tick in 1..3000i64 {
        let keys = Input {
            left: tick % 7 == 0,
            right: tick % 5 == 0,
            pause: false,
            confirm: true,
            resume: false,
            fire: tick % 3 == 0,
        };
        let targets: Vec<Vector2> = game.enemies.iter().map(|_| Vector2::new(0, -3000)).collect();
        let shots: Vec<bool> = game.enemies.iter().map(|enemy| (tick as u64 + enemy.id) % 11 == 0).collect();
        assert!(game.can_tick());
        let bound = game.next_id;
        game.tick_with(&keys, &Time { elapsed: tick * 17, delta: 17 }, &targets, orbit(tick as i32), &shots);
        assert!(game.is_wf());
        let mut now: Vec<u64> = Vec::new();
        now.extend(game.player.iter().map(|player| player.id));
        now.extend(game.enemies.iter().map(|enemy| enemy.id));
        now.extend(game.lasers.iter().map(|laser| laser.id));
        now.extend(game.explosions.iter().map(|explosion| explosion.id));
        for id in now.iter() {
            assert!(!gone.contains(id));
            assert!(seen.contains(id) || *id >= bound);
            assert!(*id < game.next_id);
        }
        for id in seen.iter() {
            if !now.contains(id) && !gone.contains(id) {
                gone.push(*id);
            }
        }
        for id in now {
            if !seen.contains(&id) {
                seen.push(id);
            }
        }
        assert_eq!(game.max_enemy.0 as usize, game.enemies.len());
    }
    assert!(gone.len() > 100);
}
