use invaders::components::{
    Enemy, Explosion, ExplosionTimer, ExplosionToSpawn, Laser, Movable, Origin, Player, SpriteSize, Velocity,
};
use invaders::constants::{ENEMY_LASER_SIZE, ENEMY_SIZE, MAX_ENEMY, PLAYER_LASER_SIZE, PLAYER_SIZE};
use invaders::enemy::formation::Formation;
use invaders::enemy::{
    enemy_fire_criteria, enemy_fire_system, enemy_fire_with, enemy_laser, enemy_spawn_system, enemy_spawn_with,
};
use invaders::explosion::{animated, explosion_animation_system, explosion_to_spawn_system};
use invaders::geometry::{Transform, Vector2};
use invaders::laser::spawn_laser;
use invaders::player::{player_fire_system, player_laser, player_spawn_system};
use invaders::resource::{GameState, Input, MaxEnemy, PlayerState, Sound, Time, WinSize};
use invaders::schedule::timer_fires;
use invaders::world::World;

fn window() -> WinSize {
    WinSize { w: 598 * 12, h: 676 * 12 }
}

fn world() -> World {
    let mut game = World::new(window()).unwrap();
    game.state = GameState::InGame;
    game.welcome_text = false;
    game
}

fn orbit(tag: i32) -> Formation {
    Formation {
        start: Vector2::new(4788, tag),
        radius: Vector2::new(1200, 1200),
        pivot: Vector2::new(0, 600),
        speed: 500,
        angle: 0,
    }
}

fn enemy(id: u64, x: i32, y: i32) -> Enemy {
    Enemy {
        id,
        transform: Transform { translation: Vector2::new(x, y), layer: 10, scale: 50 },
        formation: orbit(0),
        size: SpriteSize { w: 1728, h: 900 },
    }
}

fn ship(id: u64, x: i32, y: i32) -> Player {
    Player {
        id,
        transform: Transform { translation: Vector2::new(x, y), layer: 10, scale: 50 },
        velocity: Velocity::new(0, 0),
        movable: Movable { auto_despawn: false },
        size: SpriteSize { w: 1728, h: 900 },
    }
}

fn fire_key() -> Input {
    Input { left: false, right: false, pause: false, confirm: false, resume: false, fire: true }
}

fn time(elapsed: i64, delta: u32) -> Time {
    Time { elapsed, delta }
}

#[test]
fn no_enemy_spawns_at_the_cap() {
    let mut game = world();
    game.player = Some(ship(1, 0, -3771));
    game.player_state.spawned();
    game.next_id = 2;
    game.max_enemy = MaxEnemy(2);
    enemy_spawn_system(&mut game);
    assert!(game.enemies.is_empty());
    assert_eq!(game.max_enemy, MaxEnemy(2));
    assert_eq!(game.next_id, 2);
    assert!(!game.formation_maker.has_room());
    enemy_spawn_with(&mut game, orbit(1));
    assert!(game.enemies.is_empty());
    assert_eq!(game.max_enemy, MaxEnemy(2));
    assert!(!game.formation_maker.has_room());
}

#[test]
fn enemies_spawn_up_to_the_cap() {
    let mut game = world();
    for round in 0..5 {
        enemy_spawn_system(&mut game);
        let expected = if round < MAX_ENEMY { round + 1 } else { MAX_ENEMY };
        assert_eq!(game.max_enemy, MaxEnemy(expected));
        assert_eq!(game.enemies.len() as u32, expected);
        assert!(game.is_wf());
    }
    let first = game.enemies[0];
    let second = game.enemies[1];
    assert_eq!((first.id, second.id), (0, 1));
    assert_eq!(first.formation, second.formation);
    assert_eq!(first.transform.translation, first.formation.start);
    assert_eq!(first.transform.layer, 10);
    assert_eq!(first.transform.scale, 50);
    assert_eq!(first.size, SpriteSize::from(ENEMY_SIZE));
    assert_eq!(game.next_id, 2);
}

#[test]
fn enemy_enters_at_the_start_of_the_orbit_handed_out() {
    let mut game = world();
    enemy_spawn_with(&mut game, orbit(1));
    enemy_spawn_with(&mut game, orbit(2));
    assert_eq!(game.enemies.len(), 2);
    assert_eq!(game.enemies[0].formation, orbit(1));
    assert_eq!(game.enemies[1].formation, orbit(1));
    assert_eq!(game.enemies[1].transform.translation, Vector2::new(4788, 1));
    assert_eq!(game.max_enemy, MaxEnemy(2));
    // A kill makes room; the group is full, so the next enemy starts one.
    game.enemies.remove(0);
    game.max_enemy = MaxEnemy(1);
    enemy_spawn_with(&mut game, orbit(3));
    assert_eq!(game.enemies[1].formation, orbit(3));
    assert_eq!(game.enemies[1].id, 2);
    assert!(game.is_wf());
}

#[test]
fn nothing_spawns_once_the_handles_are_spent() {
    let mut game = world();
    game.next_id = u64::MAX;
    enemy_spawn_with(&mut game, orbit(1));
    assert!(game.enemies.is_empty());
    assert_eq!(game.max_enemy, MaxEnemy(0));
    assert!(!game.formation_maker.has_room());
    player_spawn_system(&mut game, &time(0, 16));
    assert_eq!(game.player, None);
    assert!(!game.player_state.on);
    game.explosions_to_spawn.push(ExplosionToSpawn(Vector2::new(1, 1)));
    explosion_to_spawn_system(&mut game);
    assert!(game.explosions.is_empty());
    assert!(game.explosions_to_spawn.is_empty());
    assert_eq!(game.take_id(), None);
    game.next_id = u64::MAX - 1;
    game.explosions_to_spawn.push(ExplosionToSpawn(Vector2::new(1, 1)));
    game.explosions_to_spawn.push(ExplosionToSpawn(Vector2::new(2, 2)));
    explosion_to_spawn_system(&mut game);
    assert_eq!(game.explosions.len(), 1);
    assert_eq!(game.explosions[0].id, u64::MAX - 1);
    assert_eq!(game.next_id, u64::MAX);
    assert!(game.is_wf());
}

#[test]
fn handles_rise() {
    let mut game = world();
    assert_eq!(game.take_id(), Some(0));
    assert_eq!(game.take_id(), Some(1));
    assert_eq!(game.next_id, 2);
    game.next_id = u64::MAX - 1;
    assert_eq!(game.take_id(), Some(u64::MAX - 1));
    assert_eq!(game.take_id(), None);
    assert_eq!(game.next_id, u64::MAX);
}

#[test]
fn enemies_fire_as_told() {
    let mut game = world();
    game.enemies.push(enemy(0, 100, 200));
    game.enemies.push(enemy(1, -100, 300));
    game.enemies.push(enemy(2, 0, 400));
    game.next_id = 3;
    game.max_enemy = MaxEnemy(2);
    enemy_fire_with(&mut game, &vec![true, false, true, true]);
    assert_eq!(game.lasers.len(), 2);
    let expected = Laser {
        id: 3,
        transform: Transform { translation: Vector2::new(100, 200), layer: 1, scale: 50 },
        velocity: Velocity::new(0, -1),
        movable: Movable { auto_despawn: true },
        size: SpriteSize::from(ENEMY_LASER_SIZE),
        origin: Origin::FromEnemy,
    };
    assert_eq!(game.lasers[0], expected);
    assert_eq!(game.lasers[1].id, 4);
    assert_eq!(game.lasers[1].transform.translation, Vector2::new(0, 400));
    assert_eq!(game.next_id, 5);
    assert_eq!(enemy_laser(enemy(0, 100, 200)).transform, expected.transform);
    // Too few entries: the enemies without one hold their fire.
    enemy_fire_with(&mut game, &vec![false]);
    enemy_fire_with(&mut game, &vec![]);
    assert_eq!(game.lasers.len(), 2);
    assert!(game.sounds.is_empty());
    assert!(game.is_wf());
}

#[test]
fn enemies_fire_now_and_then() {
    let mut fired = 0;
    let mut held = 0;
    for _ in 0..20000 {
        if enemy_fire_criteria() {
            fired += 1;
        } else {
            held += 1;
        }
    }
    // One time in sixty: about 333 of 20000.
    assert!(fired > 150 && fired < 600);
    assert!(held > 0);
    let mut game = world();
    game.enemies.push(enemy(0, 100, 200));
    game.enemies.push(enemy(1, -100, 300));
    game.next_id = 2;
    game.max_enemy = MaxEnemy(2);
    for _ in 0..3000 {
        enemy_fire_system(&mut game);
    }
    assert!(game.lasers.len() > 20 && game.lasers.len() < 300);
    assert!(game.lasers.iter().any(|laser| laser.transform.translation == Vector2::new(100, 200)));
    assert!(game.lasers.iter().any(|laser| laser.transform.translation == Vector2::new(-100, 300)));
    assert!(game.lasers.iter().all(|laser| laser.origin == Origin::FromEnemy && laser.velocity.y == -1));
    assert_eq!(game.next_id, 2 + game.lasers.len() as u64);
    assert!(game.is_wf());
}

#[test]
fn ship_enters_at_the_bottom_of_the_window() {
    let mut game = world();
    player_spawn_system(&mut game, &time(0, 16));
    let expected = Player {
        id: 0,
        transform: Transform { translation: Vector2::new(0, -3771), layer: 10, scale: 50 },
        velocity: Velocity::new(0, 0),
        movable: Movable { auto_despawn: false },
        size: SpriteSize::from(PLAYER_SIZE),
    };
    assert_eq!(game.player, Some(expected));
    assert_eq!(game.player_state, PlayerState { on: true, last_shot: -1 });
    assert_eq!(game.next_id, 1);
    // While the ship is in play no other one enters.
    player_spawn_system(&mut game, &time(100000, 16));
    assert_eq!(game.player, Some(expected));
    assert_eq!(game.next_id, 1);
    assert!(game.is_wf());
}

#[test]
fn ship_returns_after_the_respawn_delay() {
    let mut game = world();
    game.player_state.shot(5000);
    player_spawn_system(&mut game, &time(5000, 16));
    assert_eq!(game.player, None);
    player_spawn_system(&mut game, &time(6999, 16));
    assert_eq!(game.player, None);
    // The delay has to be over, not just reached.
    player_spawn_system(&mut game, &time(7000, 16));
    assert_eq!(game.player, None);
    assert_eq!(game.player_state, PlayerState { on: false, last_shot: 5000 });
    player_spawn_system(&mut game, &time(7001, 16));
    assert!(game.player.is_some());
    assert_eq!(game.player_state, PlayerState { on: true, last_shot: -1 });
    let mut early = world();
    early.player_state.shot(i64::MAX);
    player_spawn_system(&mut early, &time(i64::MIN, 16));
    assert_eq!(early.player, None);
    early.player_state.shot(i64::MIN);
    player_spawn_system(&mut early, &time(i64::MAX, 16));
    assert!(early.player.is_some());
}

#[test]
fn ship_fires_two_shots_when_the_key_comes_up() {
    let mut game = world();
    game.player = Some(ship(0, 1000, -3771));
    game.player_state.spawned();
    game.next_id = 1;
    let mut keys = fire_key();
    keys.fire = false;
    player_fire_system(&mut game, &keys);
    assert!(game.lasers.is_empty());
    assert!(game.sounds.is_empty());
    player_fire_system(&mut game, &fire_key());
    let right = Laser {
        id: 1,
        transform: Transform { translation: Vector2::new(1372, -3591), layer: 1, scale: 50 },
        velocity: Velocity::new(0, 1),
        movable: Movable { auto_despawn: true },
        size: SpriteSize::from(PLAYER_LASER_SIZE),
        origin: Origin::FromPlayer,
    };
    let mut left = right;
    left.id = 2;
    left.transform.translation.x = 628;
    assert_eq!(game.lasers, vec![right, left]);
    assert_eq!(game.sounds, vec![Sound::PlayerLaser]);
    assert_eq!(game.next_id, 3);
    assert_eq!(player_laser(ship(9, i32::MAX, i32::MAX), 372).transform.translation, Vector2::new(i32::MAX, i32::MAX));
    assert!(game.is_wf());
}

#[test]
fn without_a_ship_nothing_fires() {
    let mut game = world();
    player_fire_system(&mut game, &fire_key());
    assert!(game.lasers.is_empty());
    assert!(game.sounds.is_empty());
    assert_eq!(game.next_id, 0);
}

#[test]
fn a_shot_gets_the_next_handle() {
    let mut game = world();
    game.next_id = 41;
    let template = player_laser(ship(7, 0, 0), 0);
    assert_eq!(template.id, 7);
    spawn_laser(&mut game, template);
    assert_eq!(game.lasers[0].id, 41);
    assert_eq!(game.lasers[0].transform, template.transform);
    assert_eq!(game.next_id, 42);
}

#[test]
fn requests_turn_into_explosions() {
    let mut game = world();
    game.next_id = 10;
    game.explosions_to_spawn.push(ExplosionToSpawn(Vector2::new(5, 6)));
    game.explosions_to_spawn.push(ExplosionToSpawn(Vector2::new(-7, 8)));
    explosion_to_spawn_system(&mut game);
    assert!(game.explosions_to_spawn.is_empty());
    assert_eq!(
        game.explosions,
        vec![
            Explosion {
                id: 10,
                transform: Transform { translation: Vector2::new(5, 6), layer: 10, scale: 100 },
                timer: ExplosionTimer(50),
                index: 0,
            },
            Explosion {
                id: 11,
                transform: Transform { translation: Vector2::new(-7, 8), layer: 10, scale: 100 },
                timer: ExplosionTimer::default(),
                index: 0,
            },
        ]
    );
    assert_eq!(game.next_id, 12);
    explosion_to_spawn_system(&mut game);
    assert_eq!(game.explosions.len(), 2);
    assert!(game.is_wf());
}

#[test]
fn explosion_shows_a_frame_for_its_time() {
    let fresh = Explosion {
        id: 1,
        transform: Transform { translation: Vector2::new(5, 6), layer: 10, scale: 100 },
        timer: ExplosionTimer(50),
        index: 0,
    };
    let waited = animated(fresh, 16);
    assert_eq!((waited.timer, waited.index), (ExplosionTimer(34), 0));
    let next = animated(animated(waited, 16), 18);
    assert_eq!((next.timer, next.index), (ExplosionTimer(50), 1));
    assert_eq!(animated(fresh, 50).index, 1);
    assert_eq!(animated(fresh, 49).index, 0);
    assert_eq!(animated(fresh, u32::MAX).index, 1);
    assert_eq!(animated(fresh, 0), fresh);
}

#[test]
fn explosion_ends_after_its_last_frame() {
    let mut game = world();
    game.next_id = 1;
    game.explosions_to_spawn.push(ExplosionToSpawn(Vector2::new(5, 6)));
    explosion_to_spawn_system(&mut game);
    let mut frames = Vec::new();
    let mut ticks = 0;
    while !game.explosions.is_empty() {
        explosion_animation_system(&mut game, &time(0, 25));
        ticks += 1;
        if let Some(explosion) = game.explosions.first() {
            frames.push(explosion.index);
        }
        assert!(ticks <= 32);
    }
    // Sixteen frames of fifty milliseconds each.
    assert_eq!(ticks, 32);
    assert_eq!(frames.last(), Some(&15));
    assert_eq!(frames[0], 0);
    assert_eq!(frames[1], 1);
    let last = Explosion {
        id: 2,
        transform: Transform { translation: Vector2::new(0, 0), layer: 10, scale: 100 },
        timer: ExplosionTimer(10),
        index: 15,
    };
    game.explosions.push(last);
    let mut odd = last;
    odd.id = 3;
    odd.index = usize::MAX;
    game.explosions.push(odd);
    game.next_id = 4;
    explosion_animation_system(&mut game, &time(0, 9));
    assert_eq!(game.explosions.len(), 2);
    assert_eq!(game.explosions[0].timer, ExplosionTimer(1));
    explosion_animation_system(&mut game, &time(0, 1));
    assert!(game.explosions.is_empty());
}

#[test]
fn countdown_starts_over_when_it_runs_out() {
    let mut remaining = 500;
    assert!(!timer_fires(&mut remaining, 16));
    assert_eq!(remaining, 484);
    assert!(!timer_fires(&mut remaining, 483));
    assert_eq!(remaining, 1);
    assert!(timer_fires(&mut remaining, 1));
    assert_eq!(remaining, 500);
    assert!(timer_fires(&mut remaining, u32::MAX));
    assert_eq!(remaining, 500);
    assert!(!timer_fires(&mut remaining, 0));
    let mut spent = 0;
    assert!(timer_fires(&mut spent, 0));
    assert_eq!(spent, 500);
}
