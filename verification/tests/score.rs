use crop_circle::score::classify;
use crop_circle::{evaluate, GameScore, GridState, LevelDefinition, TileVerdict};

fn diagonal_level(mistake_threshold: u32, forgotten_threshold: u32) -> LevelDefinition {
    let pattern = vec![
        vec![true, false, false],
        vec![false, true, false],
        vec![false, false, true],
    ];
    LevelDefinition::new(3, pattern, mistake_threshold, forgotten_threshold, "levels/diag.png")
        .unwrap()
}

fn grid_with_cuts(n: usize, cuts: &[(usize, usize)]) -> GridState {
    let mut grid = GridState::new(n);
    for &(x, z) in cuts {
        grid.cut_tile(x, z);
    }
    grid
}

#[test]
fn exact_cuts_score_perfectly() {
    let level = diagonal_level(0, 0);
    let grid = grid_with_cuts(3, &[(0, 0), (1, 1), (2, 2)]);
    let score = evaluate(&grid, &level);
    assert_eq!(score, GameScore { forgotten: 0, mistakes: 0, passed: true });
    assert!(score.is_perfect());
}

#[test]
fn missing_cuts_are_forgotten() {
    let level = diagonal_level(0, 0);
    let grid = grid_with_cuts(3, &[(0, 0)]);
    let score = evaluate(&grid, &level);
    assert_eq!(score.forgotten, 2);
    assert_eq!(score.mistakes, 0);
    assert!(!score.passed);
    assert!(!score.is_perfect());
}

#[test]
fn extra_cut_is_a_mistake() {
    let level = diagonal_level(0, 0);
    let grid = grid_with_cuts(3, &[(0, 0), (1, 1), (2, 2), (0, 1)]);
    let score = evaluate(&grid, &level);
    assert_eq!(score.mistakes, 1);
    assert_eq!(score.forgotten, 0);
    assert!(!score.passed);
    assert!(!score.is_perfect());
}

#[test]
fn untouched_field_forgets_every_target_tile() {
    let level = diagonal_level(0, 0);
    let grid = GridState::new(3);
    let score = evaluate(&grid, &level);
    assert_eq!(score, GameScore { forgotten: 3, mistakes: 0, passed: false });
}

#[test]
fn fully_cut_field_counts_every_other_tile_as_mistake() {
    let level = diagonal_level(0, 0);
    let mut grid = GridState::new(3);
    for x in 0..3 {
        for z in 0..3 {
            grid.cut_tile(x, z);
        }
    }
    let score = evaluate(&grid, &level);
    assert_eq!(score, GameScore { forgotten: 0, mistakes: 6, passed: false });
}

#[test]
fn counts_at_the_thresholds_pass() {
    let level = diagonal_level(1, 2);
    let grid = grid_with_cuts(3, &[(0, 0), (0, 1)]);
    let score = evaluate(&grid, &level);
    assert_eq!(score, GameScore { forgotten: 2, mistakes: 1, passed: true });
    assert!(!score.is_perfect());
}

#[test]
fn one_count_over_its_threshold_fails() {
    let grid = grid_with_cuts(3, &[(0, 0), (0, 1)]);
    let too_many_mistakes = evaluate(&grid, &diagonal_level(0, 2));
    assert_eq!(too_many_mistakes, GameScore { forgotten: 2, mistakes: 1, passed: false });
    let too_many_forgotten = evaluate(&grid, &diagonal_level(1, 1));
    assert_eq!(too_many_forgotten, GameScore { forgotten: 2, mistakes: 1, passed: false });
}

#[test]
fn scoring_follows_the_coordinates_of_an_asymmetric_pattern() {
    let level = LevelDefinition::parse(2, "01\n00", 0, 0, "").unwrap();
    let right = evaluate(&grid_with_cuts(2, &[(1, 0)]), &level);
    assert_eq!(right, GameScore { forgotten: 0, mistakes: 0, passed: true });
    let wrong = evaluate(&grid_with_cuts(2, &[(0, 1)]), &level);
    assert_eq!(wrong, GameScore { forgotten: 1, mistakes: 1, passed: false });
}

#[test]
fn classify_tells_the_three_verdicts_apart() {
    let level = diagonal_level(0, 0);
    let grid = grid_with_cuts(3, &[(0, 0), (0, 1)]);
    assert_eq!(classify(&grid, &level, 0, 0), Some(TileVerdict::Correct));
    assert_eq!(classify(&grid, &level, 0, 1), Some(TileVerdict::Mistake));
    assert_eq!(classify(&grid, &level, 1, 1), Some(TileVerdict::Forgotten));
    assert_eq!(classify(&grid, &level, 1, 2), Some(TileVerdict::Correct));
    assert_eq!(classify(&grid, &level, 3, 0), None);
    assert_eq!(classify(&grid, &level, 0, 3), None);
}

#[test]
fn verdicts_add_up_to_the_score() {
    let level = diagonal_level(0, 0);
    let grid = grid_with_cuts(3, &[(2, 2), (2, 0), (1, 0)]);
    let score = evaluate(&grid, &level);
    let mut mistakes = 0;
    let mut forgotten = 0;
    for x in 0..3 {
        for z in 0..3 {
            match classify(&grid, &level, x, z) {
                Some(TileVerdict::Mistake) => mistakes += 1,
                Some(TileVerdict::Forgotten) => forgotten += 1,
                _ => {}
            }
        }
    }
    assert_eq!(score.mistakes, mistakes);
    assert_eq!(score.forgotten, forgotten);
    assert_eq!((mistakes, forgotten), (2, 2));
}
