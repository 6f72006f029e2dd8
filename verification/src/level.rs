//! Level definitions and the checks a definition must pass before play.

use vstd::prelude::*;
use crate::matrix::{in_bounds, is_square, matrix_of};
use crate::text::{rows_of, split_rows};

verus! {

/// Largest side a level may have. The number of tiles then fits the 32-bit
/// counters of a score.
pub const MAX_GRID_SIZE: usize = 65535;

/// Symbol of a tile that must be cut.
pub const CUT_SYMBOL: char = '1';

/// Symbol of a tile that must remain.
pub const KEEP_SYMBOL: char = '0';

/// Why a level or a catalog was refused, or a level could not be fetched.
#[derive(Debug, Clone, Copy, PartialEq, Eq, Structural)]
pub enum ConfigError {
    /// The grid size is zero.
    ZeroGridSize,
    /// The grid size exceeds `MAX_GRID_SIZE`.
    GridTooLarge,
    /// The pattern does not have one row per grid line.
    PatternRowCount,
    /// Some row of the pattern does not have one cell per grid column.
    PatternRowLength,
    /// Some cell of a pattern text is neither `CUT_SYMBOL` nor `KEEP_SYMBOL`.
    InvalidSymbol,
    /// The catalog holds no level.
    EmptyCatalog,
    /// No level has the requested index.
    IndexOutOfRange,
}

/// What a level definition says, as plain mathematical values.
pub struct LevelView {
    /// Side length of the square grid.
    pub grid_size: nat,
    /// `target[x][z]` is `true` when the tile at `(x, z)` must be cut.
    pub target: Seq<Seq<bool>>,
    /// Most mistakes a passing attempt may hold.
    pub mistake_threshold: nat,
    /// Most forgotten tiles a passing attempt may hold.
    pub forgotten_threshold: nat,
    /// Reference to the picture shown for the level.
    pub display_asset: Seq<char>,
}

/// A level is valid when its size is positive and within `MAX_GRID_SIZE`, and
/// its target pattern is square with that side.
pub open spec fn level_valid(v: LevelView) -> bool {
    &&& 0 < v.grid_size <= MAX_GRID_SIZE
    &&& is_square(v.target, v.grid_size)
}

/// Whether `c` is one of the two tile symbols.
pub open spec fn is_symbol(c: char) -> bool {
    c == CUT_SYMBOL || c == KEEP_SYMBOL
}

/// The first reason, in the order of the checks, for which a grid of side `n`
/// cannot take the matrix `m` as its target pattern; `None` when it can.
pub open spec fn matrix_defect(n: nat, m: Seq<Seq<bool>>) -> Option<ConfigError> {
    if n == 0 {
        Some(ConfigError::ZeroGridSize)
    } else if n > MAX_GRID_SIZE {
        Some(ConfigError::GridTooLarge)
    } else if m.len() != n {
        Some(ConfigError::PatternRowCount)
    } else if exists|x: int| 0 <= x < n && (#[trigger] m[x]).len() != n {
        Some(ConfigError::PatternRowLength)
    } else {
        None
    }
}

/// The first reason, in the order of the checks, for which a grid of side `n`
/// cannot take the text rows `rows` as its target pattern; `None` when it can.
/// Row lengths are checked on all rows before any symbol is.
pub open spec fn text_defect(n: nat, rows: Seq<Seq<char>>) -> Option<ConfigError> {
    if n == 0 {
        Some(ConfigError::ZeroGridSize)
    } else if n > MAX_GRID_SIZE {
        Some(ConfigError::GridTooLarge)
    } else if rows.len() != n {
        Some(ConfigError::PatternRowCount)
    } else if exists|z: int| 0 <= z < n && (#[trigger] rows[z]).len() != n {
        Some(ConfigError::PatternRowLength)
    } else if exists|z: int, x: int| 0 <= z < n && 0 <= x < n && !is_symbol(#[trigger] rows[z][x]) {
        Some(ConfigError::InvalidSymbol)
    } else {
        None
    }
}

/// The target pattern that text rows encode: row `z` of the text lists the
/// tiles `(0, z)`, `(1, z)`, ... from left to right.
pub open spec fn pattern_of(n: nat, rows: Seq<Seq<char>>) -> Seq<Seq<bool>> {
    Seq::new(n, |x: int| Seq::new(n, |z: int| rows[z][x] == CUT_SYMBOL))
}

/// One level: the size of its grid, the pattern to reproduce, and how far an
/// attempt may be off and still pass.
#[derive(Debug)]
pub struct LevelDefinition {
    grid_size: usize,
    target_pattern: Vec<Vec<bool>>,
    mistake_threshold: u32,
    forgotten_threshold: u32,
    display_asset: String,
}

impl View for LevelDefinition {
    type V = LevelView;

    closed spec fn view(&self) -> LevelView {
        LevelView {
            grid_size: self.grid_size as nat,
            target: matrix_of(&self.target_pattern),
            mistake_threshold: self.mistake_threshold as nat,
            forgotten_threshold: self.forgotten_threshold as nat,
            display_asset: self.display_asset@,
        }
    }
}

impl LevelDefinition {
    /// The definition is valid.
    pub open spec fn wf(&self) -> bool {
        level_valid(self@)
    }

    /// A level of side `grid_size` whose target pattern is the matrix
    /// `target_pattern`, where `target_pattern[x][z]` says whether the tile
    /// at `(x, z)` must be cut. The matrix is refused unless it is square
    /// with side `grid_size`.
    pub fn new(
        grid_size: usize,
        target_pattern: Vec<Vec<bool>>,
        mistake_threshold: u32,
        forgotten_threshold: u32,
        display_asset: &str,
    ) -> (made: Result<LevelDefinition, ConfigError>)
        ensures
            match made {
                Ok(level) => {
                    &&& matrix_defect(grid_size as nat, matrix_of(&target_pattern)) is None
                    &&& level.wf()
                    &&& level@ == (LevelView {
                        grid_size: grid_size as nat,
                        target: matrix_of(&target_pattern),
                        mistake_threshold: mistake_threshold as nat,
                        forgotten_threshold: forgotten_threshold as nat,
                        display_asset: display_asset@,
                    })
                },
                Err(e) => matrix_defect(grid_size as nat, matrix_of(&target_pattern)) == Some(e),
            },
    {
        if grid_size == 0 {
            return Err(ConfigError::ZeroGridSize);
        }
        if grid_size > MAX_GRID_SIZE {
            return Err(ConfigError::GridTooLarge);
        }
        if target_pattern.len() != grid_size {
            return Err(ConfigError::PatternRowCount);
        }
        let mut x: usize = 0;
        while x < grid_size
            invariant
                x <= grid_size,
                0 < grid_size <= MAX_GRID_SIZE,
                target_pattern@.len() == grid_size,
                forall|i: int|
                    0 <= i < x ==> (#[trigger] matrix_of(&target_pattern)[i]).len() == grid_size,
            decreases grid_size - x,
        {
            if target_pattern[x].len() != grid_size {
                assert(matrix_of(&target_pattern)[x as int].len() != grid_size);
                return Err(ConfigError::PatternRowLength);
            }
            x = x + 1;
        }
        Ok(
            LevelDefinition {
                grid_size,
                target_pattern,
                mistake_threshold,
                forgotten_threshold,
                display_asset: display_asset.to_owned(),
            },
        )
    }

    /// A level of side `grid_size` whose target pattern is written as text:
    /// one row per line, one symbol per tile, `CUT_SYMBOL` for a tile that
    /// must be cut and `KEEP_SYMBOL` for one that must remain. Row `z` of
    /// the text lists the tiles `(0, z)`, `(1, z)`, ... The text is refused
    /// unless it has `grid_size` rows of `grid_size` symbols each.
    pub fn parse(
        grid_size: usize,
        data: &str,
        mistake_threshold: u32,
        forgotten_threshold: u32,
        display_asset: &str,
    ) -> (made: Result<LevelDefinition, ConfigError>)
        ensures
            match made {
                Ok(level) => {
                    &&& text_defect(grid_size as nat, rows_of(data@)) is None
                    &&& level.wf()
                    &&& level@ == (LevelView {
                        grid_size: grid_size as nat,
                        target: pattern_of(grid_size as nat, rows_of(data@)),
                        mistake_threshold: mistake_threshold as nat,
                        forgotten_threshold: forgotten_threshold as nat,
                        display_asset: display_asset@,
                    })
                },
                Err(e) => text_defect(grid_size as nat, rows_of(data@)) == Some(e),
            },
    {
        if grid_size == 0 {
            return Err(ConfigError::ZeroGridSize);
        }
        if grid_size > MAX_GRID_SIZE {
            return Err(ConfigError::GridTooLarge);
        }
        let rows = split_rows(data);
        if rows.len() != grid_size {
            return Err(ConfigError::PatternRowCount);
        }
        let mut z: usize = 0;
        while z < grid_size
            invariant
                z <= grid_size,
                0 < grid_size <= MAX_GRID_SIZE,
                matrix_of(&rows) == rows_of(data@),
                rows@.len() == grid_size,
                forall|i: int| 0 <= i < z ==> (#[trigger] matrix_of(&rows)[i]).len() == grid_size,
            decreases grid_size - z,
        {
            if rows[z].len() != grid_size {
                assert(matrix_of(&rows)[z as int].len() != grid_size);
                return Err(ConfigError::PatternRowLength);
            }
            z = z + 1;
        }
        let mut target_pattern: Vec<Vec<bool>> = Vec::new();
        let mut x: usize = 0;
        while x < grid_size
            invariant
                x <= grid_size,
                0 < grid_size <= MAX_GRID_SIZE,
                matrix_of(&rows) == rows_of(data@),
                rows@.len() == grid_size,
                forall|i: int|
                    0 <= i < grid_size ==> (#[trigger] matrix_of(&rows)[i]).len() == grid_size,
                target_pattern@.len() == x,
                forall|i: int, k: int|
                    0 <= i < x && 0 <= k < grid_size ==> is_symbol(
                        #[trigger] matrix_of(&rows)[k][i],
                    ),
                forall|i: int|
                    0 <= i < x ==> (#[trigger] target_pattern@[i])@ == pattern_of(
                        grid_size as nat,
                        matrix_of(&rows),
                    )[i],
            decreases grid_size - x,
        {
            let mut column: Vec<bool> = Vec::new();
            let mut z: usize = 0;
            while z < grid_size
                invariant
                    z <= grid_size,
                    x < grid_size,
                    0 < grid_size <= MAX_GRID_SIZE,
                    matrix_of(&rows) == rows_of(data@),
                    rows@.len() == grid_size,
                    forall|i: int|
                    0 <= i < grid_size ==> (#[trigger] matrix_of(&rows)[i]).len() == grid_size,
                    column@.len() == z,
                    forall|k: int|
                        0 <= k < z ==> is_symbol(#[trigger] matrix_of(&rows)[k][x as int]),
                    forall|k: int|
                        0 <= k < z ==> #[trigger] column@[k] == (matrix_of(&rows)[k][x as int]
                            == CUT_SYMBOL),
                decreases grid_size - z,
            {
                assert(matrix_of(&rows)[z as int].len() == grid_size);
                let symbol = rows[z][x];
                if symbol == CUT_SYMBOL {
                    column.push(true);
                } else if symbol == KEEP_SYMBOL {
                    column.push(false);
                } else {
                    assert(!is_symbol(matrix_of(&rows)[z as int][x as int]));
                    return Err(ConfigError::InvalidSymbol);
                }
                z = z + 1;
            }
            assert(column@ =~= pattern_of(grid_size as nat, matrix_of(&rows))[x as int]);
            target_pattern.push(column);
            x = x + 1;
        }
        assert(matrix_of(&target_pattern) =~= pattern_of(grid_size as nat, matrix_of(&rows)));
        Ok(
            LevelDefinition {
                grid_size,
                target_pattern,
                mistake_threshold,
                forgotten_threshold,
                display_asset: display_asset.to_owned(),
            },
        )
    }

    /// Side length of the grid.
    pub fn grid_size(&self) -> (n: usize)
        ensures
            n == self@.grid_size,
    {
        self.grid_size
    }

    /// The target pattern: `pattern[x][z]` says whether the tile at `(x, z)`
    /// must be cut.
    pub fn target_pattern(&self) -> (pattern: &Vec<Vec<bool>>)
        ensures
            matrix_of(pattern) == self@.target,
    {
        &self.target_pattern
    }

    /// Whether the tile at `(x, z)` must be cut; `false` outside the grid.
    pub fn must_cut(&self, x: usize, z: usize) -> (wanted: bool)
        ensures
            wanted == (in_bounds(self@.target, x as int, z as int)
                && self@.target[x as int][z as int]),
    {
        if x < self.target_pattern.len() && z < self.target_pattern[x].len() {
            self.target_pattern[x][z]
        } else {
            false
        }
    }

    /// Most mistakes a passing attempt may hold.
    pub fn mistake_threshold(&self) -> (limit: u32)
        ensures
            limit == self@.mistake_threshold,
    {
        self.mistake_threshold
    }

    /// Most forgotten tiles a passing attempt may hold.
    pub fn forgotten_threshold(&self) -> (limit: u32)
        ensures
            limit == self@.forgotten_threshold,
    {
        self.forgotten_threshold
    }

    /// Reference to the picture shown for the level.
    pub fn display_asset(&self) -> (asset: &str)
        ensures
            asset@ == self@.display_asset,
    {
        self.display_asset.as_str()
    }
}

} // verus!
