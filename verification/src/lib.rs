//! Core of a crop-circle arcade puzzle: a square field of tiles that the
//! player cuts, the levels that say which tiles must fall, the score that
//! compares the two, and the session state machine that drives a playthrough.

pub mod matrix;
pub mod grid;
pub mod text;
pub mod level;
pub mod catalog;
pub mod score;
pub mod state;
pub mod session;
pub mod player;
pub mod display;
pub mod board;

pub use board::{FloorKind, WORLD_OFFSET_OF_GRID};
pub use catalog::LevelCatalog;
pub use display::Indication;
pub use grid::GridState;
pub use level::{ConfigError, LevelDefinition};
pub use player::{Facing, Player};
pub use score::{evaluate, GameScore, TileVerdict};
pub use session::{CurrentLevel, SessionState};
pub use state::{GameState, Input, Signal};
