//! What the heads-up display shows for a session: which message, and
//! whether the score panel and the invitation to start are on screen.

use vstd::prelude::*;
use crate::score::GameScore;
use crate::session::{SessionState, SessionView};
use crate::state::GameState;

verus! {

/// The messages of the mission control line.
#[derive(Debug, Clone, Copy, PartialEq, Eq, Hash, Structural)]
pub enum Indication {
    /// The briefing shown before a level starts.
    Briefing,
    /// Encouragement on the first level.
    FirstLevel,
    /// Encouragement on a level that is neither the first nor the last.
    NextLevel,
    /// Encouragement on the last level.
    LastLevel,
    /// Praise for an attempt without any fault.
    Excellent,
    /// Consolation for an attempt with faults.
    NotPerfect,
}

/// The message a session calls for, if the phase calls for a new one: the
/// briefing on the landing screen; during play a word on how far the player
/// has come; on the score screen a word on the attempt. In the other phases
/// the line keeps what it shows.
pub open spec fn indication_of(s: SessionView, level_count: nat) -> Option<Indication> {
    match s.phase {
        GameState::LandingScreen => Some(Indication::Briefing),
        GameState::InGame => {
            if s.level_idx == 0 {
                Some(Indication::FirstLevel)
            } else if s.level_idx + 1 < level_count {
                Some(Indication::NextLevel)
            } else {
                Some(Indication::LastLevel)
            }
        },
        GameState::Score => {
            match s.score {
                Some(score) => {
                    if score.mistakes == 0 && score.forgotten == 0 {
                        Some(Indication::Excellent)
                    } else {
                        Some(Indication::NotPerfect)
                    }
                },
                None => None,
            }
        },
        GameState::EndGame => None,
        GameState::GameOver => None,
    }
}

/// Whether the score panel is on screen: from the end of an attempt until
/// the score screen is left.
pub open spec fn score_shown(phase: GameState) -> bool {
    phase == GameState::EndGame || phase == GameState::Score
}

/// Whether the invitation to start is on screen: on the landing screen only.
pub open spec fn invitation_shown(phase: GameState) -> bool {
    phase == GameState::LandingScreen
}

/// The message `session` calls for, if its phase calls for a new one.
pub fn indication(session: &SessionState) -> (shown: Option<Indication>)
    ensures
        shown == indication_of(session@, session.levels().len()),
{
    let idx = session.current_level().idx;
    let count = session.catalog().level_count();
    match session.phase() {
        GameState::LandingScreen => Some(Indication::Briefing),
        GameState::InGame => {
            if idx == 0 {
                Some(Indication::FirstLevel)
            } else if idx < count && idx + 1 < count {
                Some(Indication::NextLevel)
            } else {
                Some(Indication::LastLevel)
            }
        },
        GameState::Score => {
            match session.score() {
                Some(score) => {
                    if score.is_perfect() {
                        Some(Indication::Excellent)
                    } else {
                        Some(Indication::NotPerfect)
                    }
                },
                None => None,
            }
        },
        GameState::EndGame => None,
        GameState::GameOver => None,
    }
}

/// Whether the score panel is on screen in `phase`.
pub fn is_score_shown(phase: GameState) -> (shown: bool)
    ensures
        shown == score_shown(phase),
{
    match phase {
        GameState::EndGame => true,
        GameState::Score => true,
        _ => false,
    }
}

/// Whether the invitation to start is on screen in `phase`.
pub fn is_invitation_shown(phase: GameState) -> (shown: bool)
    ensures
        shown == invitation_shown(phase),
{
    match phase {
        GameState::LandingScreen => true,
        _ => false,
    }
}

} // verus!
