use crop_circle::{
    ConfigError, GameScore, GameState, Input, LevelCatalog, LevelDefinition, SessionState, Signal,
};

fn idle() -> Input {
    Input::idle()
}

fn action() -> Input {
    Input { action: true, ..Input::idle() }
}

fn up() -> Input {
    Input { up: true, ..Input::idle() }
}

fn cut(x: usize, z: usize) -> Input {
    Input { cut: Some((x, z)), ..Input::idle() }
}

fn diagonal(n: usize) -> Vec<Vec<bool>> {
    (0..n).map(|x| (0..n).map(|z| x == z).collect()).collect()
}

fn two_level_session() -> SessionState {
    let first = LevelDefinition::new(3, diagonal(3), 0, 0, "levels/a.png").unwrap();
    let second = LevelDefinition::new(4, diagonal(4), 0, 0, "levels/b.png").unwrap();
    SessionState::new(LevelCatalog::new(vec![first, second]).unwrap())
}

fn blank(n: usize) -> Vec<Vec<bool>> {
    vec![vec![false; n]; n]
}

/// Plays the current level without a fault and stops on the score screen
/// with every key released.
fn play_perfectly(session: &mut SessionState) {
    let n = session.level().grid_size();
    assert!(session.tick(up()).is_empty());
    assert_eq!(session.phase(), GameState::InGame);
    for i in 0..n {
        assert!(session.tick(cut(i, i)).is_empty());
    }
    assert!(session.tick(action()).is_empty());
    assert_eq!(session.phase(), GameState::EndGame);
    let signals = session.tick(idle());
    assert_eq!(signals, vec![Signal::ScoreComputed, Signal::PerfectScore]);
    assert_eq!(session.phase(), GameState::Score);
}

/// Plays the current level without cutting anything and stops on the score
/// screen with every key released.
fn play_badly(session: &mut SessionState) {
    session.tick(up());
    session.tick(action());
    let signals = session.tick(idle());
    assert_eq!(signals, vec![Signal::ScoreComputed]);
    assert_eq!(session.phase(), GameState::Score);
}

#[test]
fn session_starts_on_the_landing_screen_of_the_first_level() {
    let session = two_level_session();
    assert_eq!(session.phase(), GameState::LandingScreen);
    assert_eq!(session.current_level().idx, 0);
    assert_eq!(session.score(), None);
    assert!(!session.perfect_score());
    assert_eq!(session.grid().snapshot(), &blank(3));
    assert_eq!(session.level().display_asset(), "levels/a.png");
    assert_eq!(session.catalog().level_count(), 2);
}

#[test]
fn landing_screen_waits_for_a_direction() {
    let mut session = two_level_session();
    assert!(session.tick(idle()).is_empty());
    assert_eq!(session.phase(), GameState::LandingScreen);
    assert!(session.tick(action()).is_empty());
    assert_eq!(session.phase(), GameState::LandingScreen);
    assert!(session.tick(cut(0, 0)).is_empty());
    assert_eq!(session.phase(), GameState::LandingScreen);
    assert_eq!(session.grid().snapshot(), &blank(3));
}

#[test]
fn each_direction_starts_play() {
    let directions = [
        Input { up: true, ..Input::idle() },
        Input { down: true, ..Input::idle() },
        Input { left: true, ..Input::idle() },
        Input { right: true, ..Input::idle() },
    ];
    for input in directions {
        let mut session = two_level_session();
        assert!(session.tick(input).is_empty());
        assert_eq!(session.phase(), GameState::InGame);
    }
}

#[test]
fn cuts_reach_the_field_during_play_only() {
    let mut session = two_level_session();
    session.tick(cut(1, 1));
    assert!(!session.grid().is_cut(1, 1));
    session.tick(up());
    session.tick(cut(1, 1));
    assert!(session.grid().is_cut(1, 1));
    session.tick(cut(9, 9));
    assert_eq!(session.grid().size(), 3);
    session.tick(action());
    assert_eq!(session.phase(), GameState::EndGame);
    session.tick(cut(2, 2));
    assert!(!session.grid().is_cut(2, 2));
    assert_eq!(session.phase(), GameState::Score);
    session.tick(cut(0, 0));
    assert!(!session.grid().is_cut(0, 0));
}

#[test]
fn a_cut_on_the_tick_that_ends_play_still_counts() {
    let mut session = two_level_session();
    session.tick(up());
    session.tick(Input { action: true, cut: Some((0, 0)), ..Input::idle() });
    assert_eq!(session.phase(), GameState::EndGame);
    assert!(session.grid().is_cut(0, 0));
}

#[test]
fn held_action_key_ends_play_exactly_once() {
    let mut session = two_level_session();
    session.tick(up());
    let mut phases = vec![session.phase()];
    for _ in 0..5 {
        session.tick(action());
        phases.push(session.phase());
    }
    assert_eq!(
        phases,
        vec![
            GameState::InGame,
            GameState::EndGame,
            GameState::Score,
            GameState::Score,
            GameState::Score,
            GameState::Score,
        ]
    );
    let fired = phases
        .windows(2)
        .filter(|w| w[0] == GameState::InGame && w[1] == GameState::EndGame)
        .count();
    assert_eq!(fired, 1);
    assert_eq!(session.current_level().idx, 0);
}

#[test]
fn action_key_held_since_the_landing_screen_does_not_end_play() {
    let mut session = two_level_session();
    session.tick(action());
    session.tick(Input { up: true, action: true, ..Input::idle() });
    assert_eq!(session.phase(), GameState::InGame);
    session.tick(action());
    session.tick(action());
    assert_eq!(session.phase(), GameState::InGame);
    session.tick(idle());
    assert_eq!(session.phase(), GameState::InGame);
    session.tick(action());
    assert_eq!(session.phase(), GameState::EndGame);
}

#[test]
fn end_of_attempt_is_scored_without_input() {
    let mut session = two_level_session();
    session.tick(up());
    session.tick(cut(0, 0));
    session.tick(action());
    assert_eq!(session.score(), None);
    let signals = session.tick(idle());
    assert_eq!(signals, vec![Signal::ScoreComputed]);
    assert_eq!(session.phase(), GameState::Score);
    assert_eq!(session.score(), Some(GameScore { forgotten: 2, mistakes: 0, passed: false }));
    assert!(!session.perfect_score());
}

#[test]
fn perfect_attempt_is_announced() {
    let mut session = two_level_session();
    play_perfectly(&mut session);
    assert_eq!(session.score(), Some(GameScore { forgotten: 0, mistakes: 0, passed: true }));
    assert!(session.perfect_score());
}

#[test]
fn passed_level_advances_on_action() {
    let mut session = two_level_session();
    play_perfectly(&mut session);
    assert!(session.tick(idle()).is_empty());
    assert_eq!(session.phase(), GameState::Score);
    let signals = session.tick(action());
    assert_eq!(signals, vec![Signal::Restart]);
    assert_eq!(session.phase(), GameState::LandingScreen);
    assert_eq!(session.current_level().idx, 1);
    assert_eq!(session.grid().snapshot(), &blank(4));
    assert_eq!(session.score(), None);
    assert_eq!(session.level().display_asset(), "levels/b.png");
}

#[test]
fn passed_last_level_ends_the_game_without_input() {
    let mut session = two_level_session();
    play_perfectly(&mut session);
    session.tick(action());
    session.tick(idle());
    play_perfectly(&mut session);
    assert_eq!(session.current_level().idx, 1);
    let signals = session.tick(idle());
    assert!(signals.is_empty());
    assert_eq!(session.phase(), GameState::GameOver);
    assert_eq!(session.current_level().idx, 1);
    assert_eq!(session.score(), Some(GameScore { forgotten: 0, mistakes: 0, passed: true }));
}

#[test]
fn failed_level_is_played_again() {
    let mut session = two_level_session();
    play_badly(&mut session);
    assert!(session.tick(idle()).is_empty());
    assert_eq!(session.phase(), GameState::Score);
    let signals = session.tick(action());
    assert_eq!(signals, vec![Signal::Restart]);
    assert_eq!(session.phase(), GameState::LandingScreen);
    assert_eq!(session.current_level().idx, 0);
    assert_eq!(session.score(), None);
}

#[test]
fn failed_last_level_is_played_again() {
    let mut session = two_level_session();
    play_perfectly(&mut session);
    session.tick(action());
    session.tick(idle());
    play_badly(&mut session);
    assert!(session.tick(idle()).is_empty());
    assert_eq!(session.phase(), GameState::Score);
    assert_eq!(session.tick(action()), vec![Signal::Restart]);
    assert_eq!(session.phase(), GameState::LandingScreen);
    assert_eq!(session.current_level().idx, 1);
    assert_eq!(session.grid().snapshot(), &blank(4));
}

#[test]
fn restart_leaves_no_stale_cuts() {
    let mut session = two_level_session();
    session.tick(up());
    session.tick(cut(0, 1));
    session.tick(cut(2, 2));
    session.tick(action());
    session.tick(idle());
    session.tick(action());
    assert_eq!(session.phase(), GameState::LandingScreen);
    assert_eq!(session.grid().snapshot(), &blank(3));
    assert_eq!(session.score(), None);
}

#[test]
fn score_screen_needs_a_fresh_press() {
    let mut session = two_level_session();
    session.tick(up());
    session.tick(action());
    session.tick(action());
    assert_eq!(session.phase(), GameState::Score);
    session.tick(action());
    assert_eq!(session.phase(), GameState::Score);
    session.tick(idle());
    assert_eq!(session.tick(action()), vec![Signal::Restart]);
    assert_eq!(session.phase(), GameState::LandingScreen);
}

#[test]
fn game_over_restarts_from_the_first_level() {
    let mut session = two_level_session();
    play_perfectly(&mut session);
    session.tick(action());
    session.tick(idle());
    play_perfectly(&mut session);
    session.tick(idle());
    assert_eq!(session.phase(), GameState::GameOver);
    assert!(session.tick(idle()).is_empty());
    assert_eq!(session.phase(), GameState::GameOver);
    let signals = session.tick(action());
    assert_eq!(signals, vec![Signal::Restart]);
    assert_eq!(session.phase(), GameState::LandingScreen);
    assert_eq!(session.current_level().idx, 0);
    assert_eq!(session.grid().snapshot(), &blank(3));
    assert_eq!(session.score(), None);
}

#[test]
fn game_over_ignores_a_held_action_key() {
    let mut session = two_level_session();
    play_perfectly(&mut session);
    session.tick(action());
    session.tick(idle());
    play_perfectly(&mut session);
    session.tick(action());
    assert_eq!(session.phase(), GameState::GameOver);
    session.tick(action());
    session.tick(action());
    assert_eq!(session.phase(), GameState::GameOver);
    assert_eq!(session.current_level().idx, 1);
}

#[test]
fn single_level_game_is_over_after_its_level() {
    let only = LevelDefinition::parse(1, "1", 0, 0, "levels/only.png").unwrap();
    let mut session = SessionState::new(LevelCatalog::new(vec![only]).unwrap());
    play_perfectly(&mut session);
    session.tick(idle());
    assert_eq!(session.phase(), GameState::GameOver);
    session.tick(action());
    assert_eq!(session.phase(), GameState::LandingScreen);
    assert_eq!(session.current_level().idx, 0);
}

#[test]
fn start_level_resets_field_and_score() {
    let mut session = two_level_session();
    play_badly(&mut session);
    assert_eq!(session.start_level(1), Ok(()));
    assert_eq!(session.current_level().idx, 1);
    assert_eq!(session.grid().snapshot(), &blank(4));
    assert_eq!(session.score(), None);
    assert_eq!(session.phase(), GameState::Score);
}

#[test]
fn start_level_refuses_an_unknown_level() {
    let mut session = two_level_session();
    session.tick(up());
    session.tick(cut(1, 1));
    assert_eq!(session.start_level(2), Err(ConfigError::IndexOutOfRange));
    assert_eq!(session.current_level().idx, 0);
    assert!(session.grid().is_cut(1, 1));
    assert_eq!(session.phase(), GameState::InGame);
}

#[test]
fn restart_signal_starts_the_current_level_again() {
    let mut session = two_level_session();
    session.start_level(1).unwrap();
    session.tick(up());
    session.tick(cut(3, 3));
    session.restart_signal();
    assert_eq!(session.current_level().idx, 1);
    assert_eq!(session.grid().snapshot(), &blank(4));
    assert_eq!(session.score(), None);
    assert_eq!(session.phase(), GameState::InGame);
}

#[test]
fn current_level_defaults_to_the_first() {
    assert_eq!(crop_circle::CurrentLevel::default().idx, 0);
}

#[test]
fn idle_input_has_no_key_down() {
    let input = Input::idle();
    assert!(!input.up && !input.down && !input.left && !input.right && !input.action);
    assert_eq!(input.cut, None);
    assert!(!input.any_direction());
}

#[test]
fn any_direction_sees_each_direction_key() {
    assert!(Input { up: true, ..Input::idle() }.any_direction());
    assert!(Input { down: true, ..Input::idle() }.any_direction());
    assert!(Input { left: true, ..Input::idle() }.any_direction());
    assert!(Input { right: true, ..Input::idle() }.any_direction());
    assert!(!Input { action: true, cut: Some((0, 0)), ..Input::idle() }.any_direction());
}
