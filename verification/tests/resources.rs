use invaders::resource::{GameData, GameState, PlayerState, NEVER_SHOT};

#[test]
fn score_starts_at_zero_and_counts() {
    let mut data = GameData::new();
    assert_eq!(data.get_score(), 0);
    data.add_score();
    data.add_score();
    assert_eq!(data.get_score(), 2);
    data.reset_score();
    assert_eq!(data.get_score(), 0);
}

#[test]
fn game_starts_on_the_title_screen() {
    assert_eq!(GameState::default(), GameState::Welcome);
}

#[test]
fn player_state_notes_death_and_return() {
    let mut state = PlayerState::default();
    assert!(!state.on);
    assert_eq!(state.last_shot, NEVER_SHOT);
    state.spawned();
    assert!(state.on);
    state.shot(1500);
    assert_eq!(state, PlayerState { on: false, last_shot: 1500 });
    state.spawned();
    assert_eq!(state, PlayerState { on: true, last_shot: -1 });
}
