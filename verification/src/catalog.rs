//! The level catalog: the fixed, ordered table of levels of a game.

use vstd::prelude::*;
use crate::level::{level_valid, ConfigError, LevelDefinition, LevelView};
use crate::matrix::is_square;

verus! {

/// A catalog is valid when it holds at least one level and each of its
/// levels is valid.
pub open spec fn catalog_valid(levels: Seq<LevelView>) -> bool {
    &&& levels.len() > 0
    &&& forall|idx: int| 0 <= idx < levels.len() ==> level_valid(#[trigger] levels[idx])
}

/// In a valid catalog the target pattern of every level is square with the
/// level's grid size as its side.
pub proof fn lemma_catalog_patterns_square(levels: Seq<LevelView>, idx: int)
    requires
        catalog_valid(levels),
        0 <= idx < levels.len(),
    ensures
        is_square(levels[idx].target, levels[idx].grid_size),
        0 < levels[idx].grid_size,
{
    assert(level_valid(levels[idx]));
}

/// What a vector of level definitions says, level by level.
pub open spec fn levels_of(levels: &Vec<LevelDefinition>) -> Seq<LevelView> {
    Seq::new(levels@.len(), |idx: int| levels@[idx]@)
}

/// The levels of a game, in the order in which they are played.
#[derive(Debug)]
pub struct LevelCatalog {
    levels: Vec<LevelDefinition>,
}

impl View for LevelCatalog {
    type V = Seq<LevelView>;

    closed spec fn view(&self) -> Seq<LevelView> {
        levels_of(&self.levels)
    }
}

impl LevelCatalog {
    /// The catalog is valid.
    pub open spec fn wf(&self) -> bool {
        catalog_valid(self@)
    }

    /// The catalog of the given levels, in the given order. An empty list is
    /// refused.
    pub fn new(levels: Vec<LevelDefinition>) -> (made: Result<LevelCatalog, ConfigError>)
        requires
            forall|idx: int| 0 <= idx < levels@.len() ==> (#[trigger] levels@[idx]).wf(),
        ensures
            match made {
                Ok(catalog) => {
                    &&& levels@.len() > 0
                    &&& catalog.wf()
                    &&& catalog@ == levels_of(&levels)
                },
                Err(e) => e == ConfigError::EmptyCatalog && levels@.len() == 0,
            },
    {
        if levels.len() == 0 {
            return Err(ConfigError::EmptyCatalog);
        }
        Ok(LevelCatalog { levels })
    }

    /// Number of levels.
    pub fn level_count(&self) -> (count: usize)
        ensures
            count == self@.len(),
    {
        self.levels.len()
    }

    /// The level at `idx`, for an index that is known to be in range.
    pub(crate) fn level_at(&self, idx: usize) -> (level: &LevelDefinition)
        requires
            self.wf(),
            idx < self@.len(),
        ensures
            level@ == self@[idx as int],
            level.wf(),
    {
        assert(level_valid(self@[idx as int]));
        &self.levels[idx]
    }

    /// The level at `idx`; `IndexOutOfRange` when the catalog has no such
    /// level. The target pattern of the level handed out is square with the
    /// level's grid size as its side.
    pub fn get_level(&self, idx: usize) -> (found: Result<&LevelDefinition, ConfigError>)
        requires
            self.wf(),
        ensures
            match found {
                Ok(level) => {
                    &&& idx < self@.len()
                    &&& level@ == self@[idx as int]
                    &&& level.wf()
                    &&& is_square(level@.target, level@.grid_size)
                },
                Err(e) => e == ConfigError::IndexOutOfRange && idx >= self@.len(),
            },
    {
        if idx < self.levels.len() {
            Ok(&self.levels[idx])
        } else {
            Err(ConfigError::IndexOutOfRange)
        }
    }
}

} // verus!
