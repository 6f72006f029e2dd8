use crop_circle::display::{indication, is_invitation_shown, is_score_shown};
use crop_circle::{GameState, Indication, Input, LevelCatalog, LevelDefinition, SessionState};

fn three_level_session() -> SessionState {
    let levels = vec![
        LevelDefinition::parse(1, "1", 0, 0, "a").unwrap(),
        LevelDefinition::parse(1, "1", 0, 0, "b").unwrap(),
        LevelDefinition::parse(1, "1", 0, 0, "c").unwrap(),
    ];
    SessionState::new(LevelCatalog::new(levels).unwrap())
}

fn up() -> Input {
    Input { up: true, ..Input::idle() }
}

fn action() -> Input {
    Input { action: true, ..Input::idle() }
}

fn cut() -> Input {
    Input { cut: Some((0, 0)), ..Input::idle() }
}

#[test]
fn landing_screen_shows_the_briefing() {
    let session = three_level_session();
    assert_eq!(indication(&session), Some(Indication::Briefing));
}

#[test]
fn play_shows_how_far_the_player_has_come() {
    let mut session = three_level_session();
    session.tick(up());
    assert_eq!(indication(&session), Some(Indication::FirstLevel));
    session.start_level(1).unwrap();
    assert_eq!(indication(&session), Some(Indication::NextLevel));
    session.start_level(2).unwrap();
    assert_eq!(indication(&session), Some(Indication::LastLevel));
}

#[test]
fn single_level_counts_as_the_first() {
    let only = LevelDefinition::parse(1, "0", 0, 0, "a").unwrap();
    let mut session = SessionState::new(LevelCatalog::new(vec![only]).unwrap());
    session.tick(up());
    assert_eq!(indication(&session), Some(Indication::FirstLevel));
}

#[test]
fn score_screen_judges_the_attempt() {
    let mut session = three_level_session();
    session.tick(up());
    session.tick(action());
    assert_eq!(session.phase(), GameState::EndGame);
    assert_eq!(indication(&session), None);
    session.tick(Input::idle());
    assert_eq!(indication(&session), Some(Indication::NotPerfect));

    let mut session = three_level_session();
    session.tick(up());
    session.tick(cut());
    session.tick(action());
    session.tick(Input::idle());
    assert_eq!(indication(&session), Some(Indication::Excellent));
}

#[test]
fn game_over_keeps_the_line_as_it_is() {
    let only = LevelDefinition::parse(1, "0", 0, 0, "a").unwrap();
    let mut session = SessionState::new(LevelCatalog::new(vec![only]).unwrap());
    session.tick(up());
    session.tick(action());
    session.tick(Input::idle());
    session.tick(Input::idle());
    assert_eq!(session.phase(), GameState::GameOver);
    assert_eq!(indication(&session), None);
}

#[test]
fn score_panel_is_shown_from_the_end_of_the_attempt() {
    assert!(!is_score_shown(GameState::LandingScreen));
    assert!(!is_score_shown(GameState::InGame));
    assert!(is_score_shown(GameState::EndGame));
    assert!(is_score_shown(GameState::Score));
    assert!(!is_score_shown(GameState::GameOver));
}

#[test]
fn invitation_is_shown_on_the_landing_screen_only() {
    assert!(is_invitation_shown(GameState::LandingScreen));
    assert!(!is_invitation_shown(GameState::InGame));
    assert!(!is_invitation_shown(GameState::EndGame));
    assert!(!is_invitation_shown(GameState::Score));
    assert!(!is_invitation_shown(GameState::GameOver));
}
