use invaders::components::{Enemy, Laser, Movable, Origin, SpriteSize, Velocity};
use invaders::constants::MAX_ENEMY;
use invaders::enemy::formation::Formation;
use invaders::geometry::{Transform, Vector2};
use invaders::resource::{GameState, Input, MaxEnemy, Sound, Time, WinSize};
use invaders::state::{
    apply_state_transition, paused_exit_system, paused_input_system, paused_system, welcome_exit_system,
    welcome_input_system, welcome_system,
};
use invaders::world::World;

fn window() -> WinSize {
    WinSize { w: 598 * 12, h: 676 * 12 }
}

fn no_keys() -> Input {
    Input { left: false, right: false, pause: false, confirm: false, resume: false, fire: false }
}

fn confirm() -> Input {
    Input { confirm: true, ..no_keys() }
}

fn time(tick: i64) -> Time {
    Time { elapsed: tick * 17, delta: 17 }
}

fn orbit() -> Formation {
    Formation {
        start: Vector2::new(4788, 1200),
        radius: Vector2::new(1200, 1200),
        pivot: Vector2::new(0, 600),
        speed: 500,
        angle: 0,
    }
}

fn enemy(id: u64, x: i32, y: i32) -> Enemy {
    Enemy {
        id,
        transform: Transform { translation: Vector2::new(x, y), layer: 10, scale: 50 },
        formation: orbit(),
        size: SpriteSize { w: 1728, h: 900 },
    }
}

fn shot(id: u64, x: i32, y: i32, origin: Origin) -> Laser {
    Laser {
        id,
        transform: Transform { translation: Vector2::new(x, y), layer: 1, scale: 50 },
        velocity: Velocity::new(0, if origin == Origin::FromPlayer { 1 } else { -1 }),
        movable: Movable { auto_despawn: true },
        size: SpriteSize { w: 108, h: 648 },
        origin,
    }
}

/// The targets a host would hand in: here simply the centres of the orbits.
fn targets(game: &World) -> Vec<Vector2> {
    game.enemies.iter().map(|enemy| enemy.formation.pivot).collect()
}

fn step(game: &mut World, keys: &Input, tick: i64) {
    assert!(game.can_tick());
    let targets = targets(game);
    game.tick(keys, &time(tick), &targets);
    assert!(game.is_wf());
    assert!(game.max_enemy.0 <= MAX_ENEMY);
}

/// A game in play with the ship on the field.
fn game_in_play() -> World {
    let mut game = World::new(window()).unwrap();
    step(&mut game, &confirm(), 0);
    let mut tick = 1;
    while game.player.is_none() {
        step(&mut game, &no_keys(), tick);
        tick += 1;
        assert!(tick < 100);
    }
    game
}

#[test]
fn game_starts_on_the_title_screen_with_nothing_in_play() {
    let game = World::new(window()).unwrap();
    assert_eq!(game.state, GameState::Welcome);
    assert_eq!(game.next_state, None);
    assert!(game.welcome_text);
    assert!(!game.paused_text);
    assert_eq!(game.game_data.get_score(), 0);
    assert_eq!(game.max_enemy, MaxEnemy(0));
    assert!(game.player.is_none() && game.enemies.is_empty() && game.lasers.is_empty());
    assert!(game.is_wf());
    assert!(game.can_tick());
}

#[test]
fn no_game_in_a_window_with_a_negative_side() {
    assert!(World::new(WinSize { w: -1, h: 100 }).is_none());
    assert!(World::new(WinSize { w: 100, h: -1 }).is_none());
    assert!(World::new(WinSize { w: i32::MIN, h: i32::MIN }).is_none());
    assert!(World::new(WinSize { w: 0, h: 0 }).is_some());
    assert!(World::new(WinSize { w: 3, h: 100 }).is_some());
    assert!(World::new(WinSize { w: i32::MAX, h: i32::MAX }).is_some());
    assert!(WinSize { w: 0, h: 0 }.is_wf());
    assert!(!WinSize { w: 0, h: -1 }.is_wf());
}

#[test]
fn game_runs_in_the_narrowest_window() {
    let mut game = World::new(WinSize { w: 0, h: 0 }).unwrap();
    step(&mut game, &confirm(), 0);
    for tick in 1..=30 {
        step(&mut game, &no_keys(), tick);
    }
    // The first enemy and the ship entered when the timers ran out.
    assert_eq!(game.max_enemy, MaxEnemy(1));
    assert_eq!(game.enemies.len(), 1);
    let enemy = game.enemies[0];
    assert_eq!(enemy.formation.pivot.x, 0);
    assert!(enemy.formation.start.x == 1200 || enemy.formation.start.x == -1200);
    assert!(enemy.formation.is_wf());
    assert_eq!(game.player.unwrap().transform.translation, Vector2::new(0, 285));
}

#[test]
fn title_screen_waits_for_the_start_key() {
    let mut game = World::new(window()).unwrap();
    let mut keys = no_keys();
    keys.left = true;
    keys.fire = true;
    keys.pause = true;
    keys.resume = true;
    for tick in 0..100 {
        step(&mut game, &keys, tick);
    }
    assert_eq!(game.state, GameState::Welcome);
    assert_eq!(game.next_state, None);
    assert!(game.welcome_text);
    assert!(game.player.is_none() && game.enemies.is_empty() && game.lasers.is_empty());
    assert_eq!(game.max_enemy, MaxEnemy(0));
    assert_eq!(game.enemy_spawn_timer, 500);
    assert_eq!(game.next_id, 0);
}

#[test]
fn start_key_takes_effect_with_the_next_tick() {
    let mut game = World::new(window()).unwrap();
    step(&mut game, &confirm(), 0);
    // Asked for, not yet in effect: nothing of the game has run.
    assert_eq!(game.state, GameState::Welcome);
    assert_eq!(game.next_state, Some(GameState::InGame));
    assert!(game.welcome_text);
    assert_eq!(game.enemy_spawn_timer, 500);
    step(&mut game, &no_keys(), 1);
    assert_eq!(game.state, GameState::InGame);
    assert_eq!(game.next_state, None);
    assert!(!game.welcome_text);
    assert_eq!(game.enemy_spawn_timer, 483);
}

#[test]
fn pause_freezes_the_game() {
    let mut game = game_in_play();
    while game.enemies.is_empty() {
        step(&mut game, &no_keys(), 200);
    }
    let pause = Input { pause: true, ..no_keys() };
    step(&mut game, &pause, 300);
    assert_eq!(game.state, GameState::InGame);
    assert_eq!(game.next_state, Some(GameState::Paused));
    assert!(!game.paused_text);
    step(&mut game, &no_keys(), 301);
    assert_eq!(game.state, GameState::Paused);
    assert!(game.paused_text);
    let frozen = (
        game.max_enemy,
        game.enemies.clone(),
        game.lasers.clone(),
        game.player,
        game.game_data.get_score(),
        game.enemy_spawn_timer,
        game.player_spawn_timer,
        game.next_id,
        game.explosions.clone(),
    );
    let mut keys = no_keys();
    keys.left = true;
    keys.fire = true;
    keys.confirm = true;
    keys.pause = true;
    for tick in 0..200 {
        step(&mut game, &keys, 302 + tick);
        assert_eq!(game.state, GameState::Paused);
        assert_eq!(game.next_state, None);
    }
    assert_eq!(
        frozen,
        (
            game.max_enemy,
            game.enemies.clone(),
            game.lasers.clone(),
            game.player,
            game.game_data.get_score(),
            game.enemy_spawn_timer,
            game.player_spawn_timer,
            game.next_id,
            game.explosions.clone(),
        )
    );
    assert!(game.sounds.is_empty());
}

#[test]
fn paused_spawn_system_does_not_run() {
    let mut game = World::new(window()).unwrap();
    game.state = GameState::Paused;
    game.welcome_text = false;
    game.paused_text = true;
    game.max_enemy = MaxEnemy(1);
    game.enemy_spawn_timer = 1;
    step(&mut game, &no_keys(), 0);
    assert_eq!(game.max_enemy, MaxEnemy(1));
    assert!(game.enemies.is_empty());
    assert_eq!(game.enemy_spawn_timer, 1);
    assert_eq!(game.state, GameState::Paused);
}

#[test]
fn resume_key_leaves_the_pause_while_held() {
    let mut game = game_in_play();
    step(&mut game, &Input { pause: true, ..no_keys() }, 300);
    step(&mut game, &no_keys(), 301);
    assert_eq!(game.state, GameState::Paused);
    let resume = Input { resume: true, ..no_keys() };
    step(&mut game, &resume, 302);
    assert_eq!(game.state, GameState::Paused);
    assert_eq!(game.next_state, Some(GameState::InGame));
    assert!(game.paused_text);
    // Still held when the game runs again: it asks for nothing there.
    step(&mut game, &resume, 303);
    assert_eq!(game.state, GameState::InGame);
    assert_eq!(game.next_state, None);
    assert!(!game.paused_text);
    assert!(!game.welcome_text);
    step(&mut game, &resume, 304);
    assert_eq!(game.state, GameState::InGame);
}

#[test]
fn pause_key_pauses_while_steering() {
    let mut game = game_in_play();
    let keys = Input { left: true, pause: true, ..no_keys() };
    let before = game.player.unwrap().transform.translation.x;
    step(&mut game, &keys, 300);
    assert_eq!(game.state, GameState::InGame);
    assert_eq!(game.next_state, Some(GameState::Paused));
    // The tick of the pause still steers and moves the ship.
    assert_eq!(game.player.unwrap().velocity.x, -1);
    assert_eq!(game.player.unwrap().transform.translation.x, before - 100);
    step(&mut game, &keys, 301);
    assert_eq!(game.state, GameState::Paused);
    assert!(game.paused_text);
    assert_eq!(game.player.unwrap().transform.translation.x, before - 100);
}

#[test]
fn pause_key_pauses_without_a_ship() {
    let mut game = World::new(window()).unwrap();
    step(&mut game, &confirm(), 0);
    let pause = Input { pause: true, ..no_keys() };
    step(&mut game, &pause, 1);
    assert_eq!(game.state, GameState::InGame);
    assert!(game.player.is_none());
    assert_eq!(game.next_state, Some(GameState::Paused));
    step(&mut game, &no_keys(), 2);
    assert_eq!(game.state, GameState::Paused);
    assert!(game.paused_text);
    assert!(game.player.is_none());
}

#[test]
fn enemies_spawn_on_the_timer_up_to_the_cap() {
    let mut game = World::new(window()).unwrap();
    step(&mut game, &confirm(), 0);
    let mut spawned_at = Vec::new();
    for tick in 1..200 {
        let before = game.enemies.len();
        step(&mut game, &no_keys(), tick);
        if game.enemies.len() > before {
            spawned_at.push(tick);
        }
        assert!(game.enemies.len() <= 2);
    }
    // 500 milliseconds at 17 a tick: every thirtieth tick.
    assert_eq!(spawned_at, vec![30, 60]);
    assert_eq!(game.max_enemy, MaxEnemy(2));
    assert_eq!(game.enemies[0].formation.start, game.enemies[1].formation.start);
}

#[test]
fn ship_spawns_fires_and_scores() {
    let mut game = game_in_play();
    let ship = game.player.unwrap();
    // Put an enemy right above the ship and fire.
    game.enemies.clear();
    game.lasers.clear();
    game.enemies.push(enemy(game.next_id, ship.transform.translation.x + 372, ship.transform.translation.y + 1500));
    game.next_id += 1;
    game.max_enemy = MaxEnemy(1);
    game.enemy_spawn_timer = 100000;
    let fire = Input { fire: true, ..no_keys() };
    step(&mut game, &fire, 500);
    assert_eq!(game.sounds.first(), Some(&Sound::PlayerLaser));
    assert!(game.lasers.iter().filter(|laser| laser.origin == Origin::FromPlayer).count() == 2);
    let mut tick = 501;
    while game.game_data.get_score() == 0 {
        let at = game.enemies[0].transform.translation;
        let hold = vec![at];
        assert!(game.can_tick());
        game.tick(&no_keys(), &time(tick), &hold);
        assert!(game.is_wf());
        tick += 1;
        assert!(tick < 540);
    }
    assert_eq!(game.game_data.get_score(), 1);
    assert_eq!(game.max_enemy, MaxEnemy(0));
    assert!(game.enemies.is_empty());
    assert!(game.sounds.contains(&Sound::EnemyExplosion));
    // The request was answered in the same tick.
    assert!(game.explosions_to_spawn.is_empty());
    assert_eq!(game.explosions.len(), 1);
    assert_eq!(game.lasers.iter().filter(|laser| laser.origin == Origin::FromPlayer).count(), 1);
    step(&mut game, &no_keys(), tick);
    assert!(!game.sounds.contains(&Sound::EnemyExplosion));
}

#[test]
fn death_resets_the_score_and_shows_the_title_screen() {
    let mut game = game_in_play();
    let ship = game.player.unwrap();
    game.enemies.clear();
    game.lasers.clear();
    game.max_enemy = MaxEnemy(2);
    game.game_data.add_score();
    game.game_data.add_score();
    game.game_data.add_score();
    let at = ship.transform.translation;
    game.lasers.push(shot(game.next_id, at.x, at.y + 100, Origin::FromEnemy));
    game.next_id += 1;
    let keys = Input { pause: true, fire: true, ..no_keys() };
    assert!(game.can_tick());
    game.tick(&keys, &Time { elapsed: 9000, delta: 17 }, &vec![]);
    assert_eq!(game.game_data.get_score(), 0);
    // The title screen wins over the pause that was asked for in the tick.
    assert_eq!(game.next_state, Some(GameState::Welcome));
    assert_eq!(game.state, GameState::InGame);
    assert!(game.player.is_none());
    assert_eq!(game.player_state.last_shot, 9000);
    assert!(!game.player_state.on);
    assert!(game.sounds.contains(&Sound::PlayerExplosion));
    assert!(game.lasers.is_empty());
    assert!(game.is_wf());
    step(&mut game, &no_keys(), 600);
    assert_eq!(game.state, GameState::Welcome);
    assert_eq!(game.next_state, None);
    assert!(game.welcome_text);
    assert_eq!(game.game_data.get_score(), 0);
    // A new game: the ship is back after the delay.
    step(&mut game, &confirm(), 601);
    let mut tick = 602;
    while game.player.is_none() {
        step(&mut game, &no_keys(), tick);
        tick += 1;
        assert!(tick < 800);
    }
    assert!(time(tick - 1).elapsed - 2000 > 9000);
    assert_eq!(game.game_data.get_score(), 0);
}

#[test]
fn count_of_enemies_stays_within_its_bounds_over_a_long_game() {
    let mut game = World::new(window()).unwrap();
    let mut seed: u32 = 12345;
    let mut most = 0;
    for tick in 0..6000 {
        seed = seed.wrapping_mul(1664525).wrapping_add(1013904223);
        let bits = seed >> 16;
        let keys = Input {
            left: bits & 1 != 0,
            right: bits & 2 != 0,
            pause: bits & 0xfc == 0xfc,
            confirm: bits & 0x300 != 0,
            resume: bits & 0x400 != 0,
            fire: bits & 0x1800 == 0,
        };
        assert!(game.can_tick());
        let targets: Vec<Vector2> = match game.player {
            Some(ship) => game.enemies.iter().map(|_| ship.transform.translation).collect(),
            None => targets(&game),
        };
        game.tick(&keys, &time(tick), &targets);
        assert!(game.is_wf());
        assert!(game.max_enemy.0 <= MAX_ENEMY);
        assert!(game.enemies.len() <= MAX_ENEMY as usize);
        most = most.max(game.max_enemy.0);
    }
    assert_eq!(most, MAX_ENEMY);
    assert!(game.next_id > 100);
}

#[test]
fn modes_are_left_before_the_next_is_entered() {
    let mut game = World::new(window()).unwrap();
    game.next_state = Some(GameState::Paused);
    apply_state_transition(&mut game);
    assert_eq!((game.state, game.next_state), (GameState::Paused, None));
    assert_eq!((game.welcome_text, game.paused_text), (false, true));
    game.next_state = Some(GameState::Welcome);
    apply_state_transition(&mut game);
    assert_eq!((game.state, game.next_state), (GameState::Welcome, None));
    assert_eq!((game.welcome_text, game.paused_text), (true, false));
    // Into the mode the game is in already: left and entered again.
    game.next_state = Some(GameState::Welcome);
    apply_state_transition(&mut game);
    assert_eq!((game.welcome_text, game.paused_text), (true, false));
    game.next_state = Some(GameState::InGame);
    apply_state_transition(&mut game);
    assert_eq!((game.welcome_text, game.paused_text), (false, false));
    apply_state_transition(&mut game);
    assert_eq!((game.state, game.next_state), (GameState::InGame, None));
}

#[test]
fn overlay_systems_switch_their_text() {
    let mut game = World::new(window()).unwrap();
    welcome_exit_system(&mut game);
    assert!(!game.welcome_text);
    welcome_system(&mut game);
    assert!(game.welcome_text);
    paused_system(&mut game);
    assert!(game.paused_text);
    paused_exit_system(&mut game);
    assert!(!game.paused_text);
    assert_eq!(game.state, GameState::Welcome);
}

#[test]
fn input_systems_ask_for_the_game() {
    let mut game = World::new(window()).unwrap();
    welcome_input_system(&mut game, &Input { resume: true, pause: true, ..no_keys() });
    assert_eq!(game.next_state, None);
    welcome_input_system(&mut game, &confirm());
    assert_eq!(game.next_state, Some(GameState::InGame));
    game.next_state = None;
    paused_input_system(&mut game, &confirm());
    assert_eq!(game.next_state, None);
    paused_input_system(&mut game, &Input { resume: true, ..no_keys() });
    assert_eq!(game.next_state, Some(GameState::InGame));
}

#[test]
fn game_with_a_handle_in_use_twice_is_not_well_formed() {
    let mut game = World::new(window()).unwrap();
    game.enemies.push(enemy(0, 0, 0));
    game.next_id = 1;
    assert!(game.is_wf());
    game.lasers.push(shot(0, 0, 0, Origin::FromPlayer));
    assert!(!game.is_wf());
    game.lasers[0].id = 1;
    assert!(!game.is_wf());
    game.next_id = 2;
    assert!(game.is_wf());
    game.lasers.push(shot(1, 5, 5, Origin::FromPlayer));
    assert!(!game.is_wf());
    game.lasers.pop();
    game.max_enemy = MaxEnemy(3);
    assert!(!game.is_wf());
    game.max_enemy = MaxEnemy(2);
    game.player_state.on = true;
    assert!(!game.is_wf());
    assert!(!game.can_tick());
}
