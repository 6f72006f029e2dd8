//! The session: which level is being played, in which phase, on which field,
//! and how one tick of input moves it on.

use vstd::prelude::*;
use crate::catalog::{catalog_valid, LevelCatalog};
use crate::grid::GridState;
use crate::level::{ConfigError, LevelDefinition, LevelView};
use crate::matrix::{blank, is_square, lemma_blank_all_clear, lemma_cut_sets_one_cell, with_cut};
use crate::score::{evaluate, score_of, GameScore};
use crate::state::{GameState, Input, Signal};

verus! {

/// Index of the level being played.
#[derive(Debug, Clone, Copy, PartialEq, Eq, Structural)]
pub struct CurrentLevel {
    /// Position of the level in the catalog.
    pub idx: usize,
}

impl Default for CurrentLevel {
    /// The first level.
    fn default() -> (first: CurrentLevel)
        ensures
            first.idx == 0,
    {
        CurrentLevel { idx: 0 }
    }
}

/// A session as plain mathematical values.
pub struct SessionView {
    /// Index of the level being played.
    pub level_idx: nat,
    /// The phase of the playthrough.
    pub phase: GameState,
    /// The cut matrix of the field.
    pub cut: Seq<Seq<bool>>,
    /// The score of the attempt, once it has been evaluated.
    pub score: Option<GameScore>,
    /// Whether the action key was down at the previous tick.
    pub action_held: bool,
}

/// A session is valid for a catalog when the catalog is valid, the session's
/// level is one of the catalog, and the field is square with that level's
/// grid size as its side.
pub open spec fn session_valid(levels: Seq<LevelView>, s: SessionView) -> bool {
    &&& catalog_valid(levels)
    &&& s.level_idx < levels.len()
    &&& is_square(s.cut, levels[s.level_idx as int].grid_size)
}

/// The session at the start of a game: first level, landing screen, nothing
/// cut, nothing scored, no key held.
pub open spec fn initial(levels: Seq<LevelView>) -> SessionView {
    SessionView {
        level_idx: 0,
        phase: GameState::LandingScreen,
        cut: blank(levels[0].grid_size),
        score: None,
        action_held: false,
    }
}

/// The action key is down now and was not at the previous tick.
pub open spec fn rising_edge(s: SessionView, input: Input) -> bool {
    input.action && !s.action_held
}

/// The attempt has been scored and has passed.
pub open spec fn passed(s: SessionView) -> bool {
    s.score matches Some(score) && score.passed
}

/// The session plays the last level of the catalog.
pub open spec fn on_last_level(levels: Seq<LevelView>, s: SessionView) -> bool {
    s.level_idx + 1 == levels.len()
}

/// `s` after level `idx` has been started: that level is current, its field
/// is fresh, and no score is held.
pub open spec fn restarted(levels: Seq<LevelView>, s: SessionView, idx: nat) -> SessionView {
    SessionView { level_idx: idx, cut: blank(levels[idx as int].grid_size), score: None, ..s }
}

/// What is announced when `score` has been computed.
pub open spec fn score_signals(score: GameScore) -> Seq<Signal> {
    if score.mistakes == 0 && score.forgotten == 0 {
        seq![Signal::ScoreComputed, Signal::PerfectScore]
    } else {
        seq![Signal::ScoreComputed]
    }
}

/// What one tick does to the level, the phase, the field and the score, and
/// what it announces.
pub open spec fn transition(levels: Seq<LevelView>, s: SessionView, input: Input) -> (
    SessionView,
    Seq<Signal>,
) {
    match s.phase {
        GameState::LandingScreen => {
            if input.spec_any_direction() {
                (SessionView { phase: GameState::InGame, ..s }, Seq::empty())
            } else {
                (s, Seq::empty())
            }
        },
        GameState::InGame => {
            let cut = match input.cut {
                Some(tile) => with_cut(s.cut, tile.0 as int, tile.1 as int),
                None => s.cut,
            };
            let phase = if rising_edge(s, input) {
                GameState::EndGame
            } else {
                GameState::InGame
            };
            (SessionView { cut, phase, ..s }, Seq::empty())
        },
        GameState::EndGame => {
            let score = score_of(s.cut, levels[s.level_idx as int]);
            (SessionView { phase: GameState::Score, score: Some(score), ..s }, score_signals(score))
        },
        GameState::Score => {
            if passed(s) && on_last_level(levels, s) {
                (SessionView { phase: GameState::GameOver, ..s }, Seq::empty())
            } else if rising_edge(s, input) {
                let next = if passed(s) {
                    s.level_idx + 1
                } else {
                    s.level_idx
                };
                let fresh = restarted(levels, s, next as nat);
                (SessionView { phase: GameState::LandingScreen, ..fresh }, seq![Signal::Restart])
            } else {
                (s, Seq::empty())
            }
        },
        GameState::GameOver => {
            if rising_edge(s, input) {
                let fresh = restarted(levels, s, 0);
                (SessionView { phase: GameState::LandingScreen, ..fresh }, seq![Signal::Restart])
            } else {
                (s, Seq::empty())
            }
        },
    }
}

/// One tick: the transition, after which the session remembers whether the
/// action key is down.
pub open spec fn step(levels: Seq<LevelView>, s: SessionView, input: Input) -> (
    SessionView,
    Seq<Signal>,
) {
    let (next, signals) = transition(levels, s, input);
    (SessionView { action_held: input.action, ..next }, signals)
}

/// The session after the first `ticks` ticks of a run of inputs.
pub open spec fn state_after(
    levels: Seq<LevelView>,
    s: SessionView,
    inputs: Seq<Input>,
    ticks: nat,
) -> SessionView
    decreases ticks,
{
    if ticks == 0 {
        s
    } else {
        let before = state_after(levels, s, inputs, (ticks - 1) as nat);
        step(levels, before, inputs[ticks - 1]).0
    }
}

/// The tick takes the session from play to the end of the attempt.
pub open spec fn ends_attempt(levels: Seq<LevelView>, s: SessionView, input: Input) -> bool {
    s.phase == GameState::InGame && step(levels, s, input).0.phase == GameState::EndGame
}

/// A tick keeps a valid session valid: the level index stays within the
/// catalog and the field keeps the size of the current level.
pub proof fn lemma_step_keeps_valid(levels: Seq<LevelView>, s: SessionView, input: Input)
    requires
        session_valid(levels, s),
    ensures
        session_valid(levels, step(levels, s, input).0),
{
    let next = step(levels, s, input).0;
    match s.phase {
        GameState::InGame => {
            match input.cut {
                Some(tile) => {
                    lemma_cut_sets_one_cell(
                        s.cut,
                        levels[s.level_idx as int].grid_size,
                        tile.0 as int,
                        tile.1 as int,
                    );
                },
                None => {},
            }
        },
        GameState::Score => {
            lemma_blank_all_clear(levels[next.level_idx as int].grid_size);
        },
        GameState::GameOver => {
            lemma_blank_all_clear(levels[0].grid_size);
        },
        _ => {},
    }
}

/// The score on show is the score of the field as it stands: a session holds
/// a score on the score screen and when the game is over, and then it is the
/// score of its field on its level; in every other phase it holds none.
pub open spec fn score_current(levels: Seq<LevelView>, s: SessionView) -> bool {
    if s.phase == GameState::Score || s.phase == GameState::GameOver {
        s.score == Some(score_of(s.cut, levels[s.level_idx as int]))
    } else {
        s.score is None
    }
}

/// A tick keeps the score on show current.
pub proof fn lemma_step_keeps_score_current(levels: Seq<LevelView>, s: SessionView, input: Input)
    requires
        score_current(levels, s),
    ensures
        score_current(levels, step(levels, s, input).0),
{
}

/// A game starts in a valid session that holds no score.
pub proof fn lemma_initial_valid(levels: Seq<LevelView>)
    requires
        catalog_valid(levels),
    ensures
        session_valid(levels, initial(levels)),
        score_current(levels, initial(levels)),
{
    lemma_blank_all_clear(levels[0].grid_size);
}

/// Whatever the player does, from the start of a game on: the session stays
/// valid, so that the level index stays within the catalog and the field
/// keeps the size of the current level, and the score on show stays current.
pub proof fn lemma_run_keeps_valid(levels: Seq<LevelView>, inputs: Seq<Input>, ticks: nat)
    requires
        catalog_valid(levels),
    ensures
        session_valid(levels, state_after(levels, initial(levels), inputs, ticks)),
        score_current(levels, state_after(levels, initial(levels), inputs, ticks)),
    decreases ticks,
{
    if ticks == 0 {
        lemma_initial_valid(levels);
    } else {
        let before = state_after(levels, initial(levels), inputs, (ticks - 1) as nat);
        lemma_run_keeps_valid(levels, inputs, (ticks - 1) as nat);
        lemma_step_keeps_valid(levels, before, inputs[ticks - 1]);
        lemma_step_keeps_score_current(levels, before, inputs[ticks - 1]);
    }
}

/// Whenever a tick announces a restart, the session is back on the landing
/// screen with a fresh field of the current level's size and without a
/// score.
pub proof fn lemma_restart_clears(levels: Seq<LevelView>, s: SessionView, input: Input)
    requires
        step(levels, s, input).1.contains(Signal::Restart),
    ensures
        step(levels, s, input).0.phase == GameState::LandingScreen,
        step(levels, s, input).0.score is None,
        step(levels, s, input).0.cut == blank(
            levels[step(levels, s, input).0.level_idx as int].grid_size,
        ),
{
}

/// While the action key stays down after a tick that saw it down, no
/// transition that waits for the key fires: play goes on, the score stays on
/// show unless the game is won, and a finished game stays finished.
pub proof fn lemma_held_action_fires_nothing(levels: Seq<LevelView>, s: SessionView, input: Input)
    requires
        s.action_held,
        input.action,
    ensures
        step(levels, s, input).0.action_held,
        !step(levels, s, input).1.contains(Signal::Restart),
        step(levels, s, input).0.level_idx == s.level_idx,
        s.phase == GameState::InGame ==> step(levels, s, input).0.phase == GameState::InGame,
        s.phase == GameState::Score ==> step(levels, s, input).0.phase == GameState::Score || step(
            levels,
            s,
            input,
        ).0.phase == GameState::GameOver,
        s.phase == GameState::GameOver ==> step(levels, s, input).0 == s,
{
}

/// A press of the action key during play ends the attempt once, however
/// long the key is held: the first tick of a run of ticks with the key down
/// takes the session from play to the end of the attempt, and no later tick
/// of the run does.
pub proof fn lemma_held_action_ends_attempt_once(
    levels: Seq<LevelView>,
    s: SessionView,
    inputs: Seq<Input>,
)
    requires
        s.phase == GameState::InGame,
        !s.action_held,
        inputs.len() >= 1,
        forall|i: int| 0 <= i < inputs.len() ==> (#[trigger] inputs[i]).action,
    ensures
        ends_attempt(levels, s, inputs[0]),
        forall|k: nat|
            1 <= k < inputs.len() ==> !ends_attempt(
                levels,
                #[trigger] state_after(levels, s, inputs, k),
                inputs[k as int],
            ),
{
    assert forall|k: nat| 1 <= k < inputs.len() implies !ends_attempt(
        levels,
        #[trigger] state_after(levels, s, inputs, k),
        inputs[k as int],
    ) by {
        lemma_after_press_never_in_play(levels, s, inputs, k);
    }
}

/// After the first tick of a run of ticks with the action key down, started
/// in play with the key up, the session is past play and the key counts as
/// held.
proof fn lemma_after_press_never_in_play(
    levels: Seq<LevelView>,
    s: SessionView,
    inputs: Seq<Input>,
    k: nat,
)
    requires
        s.phase == GameState::InGame,
        !s.action_held,
        1 <= k <= inputs.len(),
        forall|i: int| 0 <= i < inputs.len() ==> (#[trigger] inputs[i]).action,
    ensures
        state_after(levels, s, inputs, k).action_held,
        state_after(levels, s, inputs, k).phase == GameState::EndGame || state_after(
            levels,
            s,
            inputs,
            k,
        ).phase == GameState::Score || state_after(levels, s, inputs, k).phase
            == GameState::GameOver,
    decreases k,
{
    if k == 1 {
        assert(state_after(levels, s, inputs, 0) == s);
        assert(inputs[0].action);
    } else {
        lemma_after_press_never_in_play(levels, s, inputs, (k - 1) as nat);
        let before = state_after(levels, s, inputs, (k - 1) as nat);
        assert(inputs[k - 1].action);
        lemma_held_action_fires_nothing(levels, before, inputs[k - 1]);
    }
}

/// On the landing screen, play starts at the first tick that sees a
/// direction key down, and nothing else changes; until then the session
/// waits.
pub proof fn lemma_direction_starts_play(levels: Seq<LevelView>, s: SessionView, input: Input)
    requires
        s.phase == GameState::LandingScreen,
    ensures
        step(levels, s, input).0 == (SessionView {
            phase: if input.spec_any_direction() {
                GameState::InGame
            } else {
                GameState::LandingScreen
            },
            action_held: input.action,
            ..s
        }),
        step(levels, s, input).1 == Seq::<Signal>::empty(),
{
}

/// During play the field takes the cut of the tick, if there is one, and a
/// press of the action key ends the attempt; the level and the score are
/// left alone and nothing is announced.
pub proof fn lemma_play_cuts_and_ends_on_press(levels: Seq<LevelView>, s: SessionView, input: Input)
    requires
        s.phase == GameState::InGame,
    ensures
        step(levels, s, input).0 == (SessionView {
            phase: if rising_edge(s, input) {
                GameState::EndGame
            } else {
                GameState::InGame
            },
            cut: match input.cut {
                Some(tile) => with_cut(s.cut, tile.0 as int, tile.1 as int),
                None => s.cut,
            },
            action_held: input.action,
            ..s
        }),
        step(levels, s, input).1 == Seq::<Signal>::empty(),
{
}

/// Outside play no tick cuts a tile: the field changes only when a restart
/// clears it.
pub proof fn lemma_field_changes_in_play_only(levels: Seq<LevelView>, s: SessionView, input: Input)
    requires
        s.phase != GameState::InGame,
    ensures
        step(levels, s, input).0.cut == s.cut || step(levels, s, input).1 == seq![Signal::Restart],
{
}

/// On the score screen of a level that is passed and is not the last, a
/// press of the action key starts the next level: landing screen, next level
/// index, fresh field of the next level's size, no score, and a restart
/// announced.
pub proof fn lemma_passed_level_advances(levels: Seq<LevelView>, s: SessionView, input: Input)
    requires
        s.phase == GameState::Score,
        passed(s),
        !on_last_level(levels, s),
        rising_edge(s, input),
    ensures
        step(levels, s, input).0 == (SessionView {
            level_idx: (s.level_idx + 1) as nat,
            phase: GameState::LandingScreen,
            cut: blank(levels[(s.level_idx + 1) as int].grid_size),
            score: None,
            action_held: true,
        }),
        step(levels, s, input).1 == seq![Signal::Restart],
{
}

/// On the score screen of a level that is not passed, a press of the action
/// key starts the same level again.
pub proof fn lemma_failed_level_repeats(levels: Seq<LevelView>, s: SessionView, input: Input)
    requires
        s.phase == GameState::Score,
        !passed(s),
        rising_edge(s, input),
    ensures
        step(levels, s, input).0 == (SessionView {
            level_idx: s.level_idx,
            phase: GameState::LandingScreen,
            cut: blank(levels[s.level_idx as int].grid_size),
            score: None,
            action_held: true,
        }),
        step(levels, s, input).1 == seq![Signal::Restart],
{
}

/// On the score screen of the last level, once it is passed, the game is
/// over at the next tick whatever the keys do.
pub proof fn lemma_last_level_passed_ends_game(levels: Seq<LevelView>, s: SessionView, input: Input)
    requires
        s.phase == GameState::Score,
        passed(s),
        on_last_level(levels, s),
    ensures
        step(levels, s, input).0 == (SessionView {
            phase: GameState::GameOver,
            action_held: input.action,
            ..s
        }),
        step(levels, s, input).1 == Seq::<Signal>::empty(),
{
}

/// When the game is over, a press of the action key starts it again from
/// the first level.
pub proof fn lemma_game_over_restarts(levels: Seq<LevelView>, s: SessionView, input: Input)
    requires
        s.phase == GameState::GameOver,
        rising_edge(s, input),
    ensures
        step(levels, s, input).0 == (SessionView {
            level_idx: 0,
            phase: GameState::LandingScreen,
            cut: blank(levels[0].grid_size),
            score: None,
            action_held: true,
        }),
        step(levels, s, input).1 == seq![Signal::Restart],
{
}

/// The tick after the end of an attempt scores it, whatever the keys do.
pub proof fn lemma_end_of_attempt_is_scored(levels: Seq<LevelView>, s: SessionView, input: Input)
    requires
        s.phase == GameState::EndGame,
    ensures
        step(levels, s, input).0.phase == GameState::Score,
        step(levels, s, input).0.score == Some(score_of(s.cut, levels[s.level_idx as int])),
        step(levels, s, input).0.cut == s.cut,
        step(levels, s, input).0.level_idx == s.level_idx,
        step(levels, s, input).1.contains(Signal::ScoreComputed),
        step(levels, s, input).1.contains(Signal::PerfectScore) <==> (score_of(
            s.cut,
            levels[s.level_idx as int],
        ).mistakes == 0 && score_of(s.cut, levels[s.level_idx as int]).forgotten == 0),
{
    let score = score_of(s.cut, levels[s.level_idx as int]);
    let signals = step(levels, s, input).1;
    assert(signals[0] == Signal::ScoreComputed);
    if score.mistakes == 0 && score.forgotten == 0 {
        assert(signals[1] == Signal::PerfectScore);
    }
}

/// One playthrough: the catalog, the level being played, the phase, the
/// field, the latest score, and the state of the action key.
#[derive(Debug)]
pub struct SessionState {
    catalog: LevelCatalog,
    current_level: CurrentLevel,
    phase: GameState,
    grid: GridState,
    score: Option<GameScore>,
    action_held: bool,
}

impl View for SessionState {
    type V = SessionView;

    closed spec fn view(&self) -> SessionView {
        SessionView {
            level_idx: self.current_level.idx as nat,
            phase: self.phase,
            cut: self.grid@,
            score: self.score,
            action_held: self.action_held,
        }
    }
}

impl SessionState {
    /// The levels of the session's catalog.
    pub closed spec fn levels(&self) -> Seq<LevelView> {
        self.catalog@
    }

    /// The session is valid for its catalog.
    pub open spec fn wf(&self) -> bool {
        session_valid(self.levels(), self@)
    }

    /// A session at the start of a game on `catalog`.
    pub fn new(catalog: LevelCatalog) -> (session: SessionState)
        requires
            catalog.wf(),
        ensures
            session.wf(),
            session.levels() == catalog@,
            session@ == initial(catalog@),
    {
        let size = catalog.level_at(0).grid_size();
        SessionState {
            catalog,
            current_level: CurrentLevel::default(),
            phase: GameState::LandingScreen,
            grid: GridState::new(size),
            score: None,
            action_held: false,
        }
    }

    /// The catalog the session plays.
    pub fn catalog(&self) -> (catalog: &LevelCatalog)
        ensures
            catalog@ == self.levels(),
    {
        &self.catalog
    }

    /// The phase of the playthrough.
    pub fn phase(&self) -> (phase: GameState)
        ensures
            phase == self@.phase,
    {
        self.phase
    }

    /// The level being played.
    pub fn current_level(&self) -> (current: CurrentLevel)
        ensures
            current.idx == self@.level_idx,
    {
        self.current_level
    }

    /// The definition of the level being played.
    pub fn level(&self) -> (level: &LevelDefinition)
        requires
            self.wf(),
        ensures
            level@ == self.levels()[self@.level_idx as int],
            level.wf(),
    {
        self.catalog.level_at(self.current_level.idx)
    }

    /// The field.
    pub fn grid(&self) -> (grid: &GridState)
        ensures
            grid@ == self@.cut,
    {
        &self.grid
    }

    /// The score of the attempt; `None` until the attempt has been scored.
    pub fn score(&self) -> (score: Option<GameScore>)
        ensures
            score == self@.score,
    {
        self.score
    }

    /// Whether the attempt has been scored and matches the pattern exactly.
    pub fn perfect_score(&self) -> (perfect: bool)
        ensures
            perfect == (self@.score matches Some(score) && score.mistakes == 0 && score.forgotten
                == 0),
    {
        match self.score {
            Some(score) => score.is_perfect(),
            None => false,
        }
    }

    /// Starts level `idx`: makes it the current level, resets the field to
    /// its size, and drops the score of any earlier attempt. The phase stays
    /// as it is. An index outside the catalog is refused and changes nothing.
    pub fn start_level(&mut self, idx: usize) -> (started: Result<(), ConfigError>)
        requires
            old(self).wf(),
        ensures
            final(self).wf(),
            final(self).levels() == old(self).levels(),
            match started {
                Ok(_) => idx < old(self).levels().len() && final(self)@ == restarted(
                    old(self).levels(),
                    old(self)@,
                    idx as nat,
                ),
                Err(e) => e == ConfigError::IndexOutOfRange && idx >= old(self).levels().len()
                    && final(self)@ == old(self)@,
            },
    {
        if idx >= self.catalog.level_count() {
            return Err(ConfigError::IndexOutOfRange);
        }
        self.restart_at(idx);
        Ok(())
    }

    /// Starts the current level again: resets the field and drops the score.
    pub fn restart_signal(&mut self)
        requires
            old(self).wf(),
        ensures
            final(self).wf(),
            final(self).levels() == old(self).levels(),
            final(self)@ == restarted(old(self).levels(), old(self)@, old(self)@.level_idx),
    {
        let idx = self.current_level.idx;
        self.restart_at(idx);
    }

    fn restart_at(&mut self, idx: usize)
        requires
            old(self).wf(),
            idx < old(self).levels().len(),
        ensures
            final(self).wf(),
            final(self).levels() == old(self).levels(),
            final(self)@ == restarted(old(self).levels(), old(self)@, idx as nat),
    {
        let size = self.catalog.level_at(idx).grid_size();
        self.current_level = CurrentLevel { idx };
        self.grid.reset(size);
        self.score = None;
    }

    /// Advances the session by one tick of input and returns what the tick
    /// announces, in order.
    pub fn tick(&mut self, input: Input) -> (signals: Vec<Signal>)
        requires
            old(self).wf(),
        ensures
            final(self).wf(),
            final(self).levels() == old(self).levels(),
            final(self)@ == step(old(self).levels(), old(self)@, input).0,
            signals@ == step(old(self).levels(), old(self)@, input).1,
    {
        let pressed = input.action && !self.action_held;
        let mut signals: Vec<Signal> = Vec::new();
        match self.phase {
            GameState::LandingScreen => {
                if input.any_direction() {
                    self.phase = GameState::InGame;
                }
            },
            GameState::InGame => {
                match input.cut {
                    Some(tile) => {
                        self.grid.cut_tile(tile.0, tile.1);
                    },
                    None => {},
                }
                if pressed {
                    self.phase = GameState::EndGame;
                }
            },
            GameState::EndGame => {
                let score = evaluate(&self.grid, self.catalog.level_at(self.current_level.idx));
                signals.push(Signal::ScoreComputed);
                if score.is_perfect() {
                    signals.push(Signal::PerfectScore);
                }
                self.score = Some(score);
                self.phase = GameState::Score;
            },
            GameState::Score => {
                let passed = match self.score {
                    Some(score) => score.passed,
                    None => false,
                };
                let count = self.catalog.level_count();
                let last = self.current_level.idx + 1 == count;
                if passed && last {
                    self.phase = GameState::GameOver;
                } else if pressed {
                    let next = if passed {
                        self.current_level.idx + 1
                    } else {
                        self.current_level.idx
                    };
                    self.restart_at(next);
                    self.phase = GameState::LandingScreen;
                    signals.push(Signal::Restart);
                }
            },
            GameState::GameOver => {
                if pressed {
                    self.restart_at(0);
                    self.phase = GameState::LandingScreen;
                    signals.push(Signal::Restart);
                }
            },
        }
        self.action_held = input.action;
        signals
    }
}

} // verus!
