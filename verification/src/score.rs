//! Scoring: how far the field is from the target pattern of a level.

use vstd::prelude::*;
use vstd::set_lib::lemma_set_disjoint_lens;
use crate::grid::GridState;
use crate::level::{level_valid, LevelDefinition, LevelView, MAX_GRID_SIZE};
use crate::matrix::{is_square, matrix_of};

verus! {

/// How one tile stands against the target pattern.
#[derive(Debug, Clone, Copy, PartialEq, Eq, Structural)]
pub enum TileVerdict {
    /// Cut where the pattern asks for a cut, or intact where it asks for that.
    Correct,
    /// Cut although the pattern asks for an intact tile.
    Mistake,
    /// Intact although the pattern asks for a cut.
    Forgotten,
}

/// The outcome of one scoring evaluation.
#[derive(Debug, Clone, Copy, PartialEq, Eq, Structural)]
pub struct GameScore {
    /// Tiles left intact that the pattern wants cut.
    pub forgotten: u32,
    /// Tiles cut that the pattern wants intact.
    pub mistakes: u32,
    /// Whether both counts are within the thresholds of the level.
    pub passed: bool,
}

/// The verdict on a tile, from whether it is cut and whether it must be.
pub open spec fn verdict(cut: bool, target: bool) -> TileVerdict {
    if cut && !target {
        TileVerdict::Mistake
    } else if !cut && target {
        TileVerdict::Forgotten
    } else {
        TileVerdict::Correct
    }
}

/// Number of tiles with verdict `kind` among the first `len` tiles of a row.
pub open spec fn count_in_row(cut: Seq<bool>, target: Seq<bool>, kind: TileVerdict, len: nat) -> nat
    decreases len,
{
    if len == 0 {
        0
    } else {
        let z = len - 1;
        count_in_row(cut, target, kind, z as nat) + if verdict(cut[z], target[z]) == kind {
            1nat
        } else {
            0nat
        }
    }
}

/// Number of tiles with verdict `kind` in the first `rows` rows of a grid of
/// side `n`.
pub open spec fn count_in_rows(
    cut: Seq<Seq<bool>>,
    target: Seq<Seq<bool>>,
    kind: TileVerdict,
    n: nat,
    rows: nat,
) -> nat
    decreases rows,
{
    if rows == 0 {
        0
    } else {
        let x = rows - 1;
        count_in_rows(cut, target, kind, n, x as nat) + count_in_row(cut[x], target[x], kind, n)
    }
}

/// Number of tiles with verdict `kind` in a grid of side `n`.
pub open spec fn count_tiles(
    cut: Seq<Seq<bool>>,
    target: Seq<Seq<bool>>,
    kind: TileVerdict,
    n: nat,
) -> nat {
    count_in_rows(cut, target, kind, n, n)
}

/// The score of the cut matrix `cut` on `level`.
pub open spec fn score_of(cut: Seq<Seq<bool>>, level: LevelView) -> GameScore {
    let mistakes = count_tiles(cut, level.target, TileVerdict::Mistake, level.grid_size);
    let forgotten = count_tiles(cut, level.target, TileVerdict::Forgotten, level.grid_size);
    GameScore {
        forgotten: forgotten as u32,
        mistakes: mistakes as u32,
        passed: mistakes <= level.mistake_threshold && forgotten <= level.forgotten_threshold,
    }
}

/// The places `(x, z)` of a grid of side `n` whose tile has verdict `kind`.
pub open spec fn tiles_with(
    cut: Seq<Seq<bool>>,
    target: Seq<Seq<bool>>,
    kind: TileVerdict,
    n: nat,
) -> Set<(int, int)> {
    tiles_in_rows(cut, target, kind, n, n)
}

/// The places in the first `rows` rows of a grid of side `n` whose tile has
/// verdict `kind`.
pub open spec fn tiles_in_rows(
    cut: Seq<Seq<bool>>,
    target: Seq<Seq<bool>>,
    kind: TileVerdict,
    n: nat,
    rows: nat,
) -> Set<(int, int)> {
    Set::new(
        |at: (int, int)|
            0 <= at.0 < rows && 0 <= at.1 < n && verdict(cut[at.0][at.1], target[at.0][at.1])
                == kind,
    )
}

/// The places among the first `len` tiles of row `x` whose tile has verdict
/// `kind`.
pub open spec fn tiles_in_row(
    cut: Seq<Seq<bool>>,
    target: Seq<Seq<bool>>,
    kind: TileVerdict,
    x: int,
    len: nat,
) -> Set<(int, int)> {
    Set::new(
        |at: (int, int)|
            at.0 == x && 0 <= at.1 < len && verdict(cut[x][at.1], target[x][at.1]) == kind,
    )
}

/// The count of a row prefix is the number of its places with the verdict.
pub proof fn lemma_count_in_row_is_cardinality(
    cut: Seq<Seq<bool>>,
    target: Seq<Seq<bool>>,
    kind: TileVerdict,
    x: int,
    len: nat,
)
    ensures
        tiles_in_row(cut, target, kind, x, len).finite(),
        tiles_in_row(cut, target, kind, x, len).len() == count_in_row(cut[x], target[x], kind, len),
    decreases len,
{
    let places = tiles_in_row(cut, target, kind, x, len);
    if len == 0 {
        assert(places =~= Set::<(int, int)>::empty());
    } else {
        let z = len - 1;
        let before = tiles_in_row(cut, target, kind, x, z as nat);
        lemma_count_in_row_is_cardinality(cut, target, kind, x, z as nat);
        if verdict(cut[x][z], target[x][z]) == kind {
            assert(places =~= before.insert((x, z)));
        } else {
            assert(places =~= before);
        }
    }
}

/// The count of the first rows of a grid is the number of their places with
/// the verdict.
pub proof fn lemma_count_in_rows_is_cardinality(
    cut: Seq<Seq<bool>>,
    target: Seq<Seq<bool>>,
    kind: TileVerdict,
    n: nat,
    rows: nat,
)
    ensures
        tiles_in_rows(cut, target, kind, n, rows).finite(),
        tiles_in_rows(cut, target, kind, n, rows).len() == count_in_rows(
            cut,
            target,
            kind,
            n,
            rows,
        ),
    decreases rows,
{
    let places = tiles_in_rows(cut, target, kind, n, rows);
    if rows == 0 {
        assert(places =~= Set::<(int, int)>::empty());
    } else {
        let x = rows - 1;
        let above = tiles_in_rows(cut, target, kind, n, x as nat);
        let row = tiles_in_row(cut, target, kind, x, n);
        lemma_count_in_rows_is_cardinality(cut, target, kind, n, x as nat);
        lemma_count_in_row_is_cardinality(cut, target, kind, x, n);
        assert(places =~= above + row);
        lemma_set_disjoint_lens(above, row);
    }
}

/// The count of a grid is the number of its places whose tile has the
/// verdict. So the mistakes of a field are as many as the tiles that are cut
/// against the pattern, and the forgotten tiles as many as those left
/// standing against it.
pub proof fn lemma_count_is_cardinality(
    cut: Seq<Seq<bool>>,
    target: Seq<Seq<bool>>,
    kind: TileVerdict,
    n: nat,
)
    ensures
        tiles_with(cut, target, kind, n).finite(),
        tiles_with(cut, target, kind, n).len() == count_tiles(cut, target, kind, n),
{
    lemma_count_in_rows_is_cardinality(cut, target, kind, n, n);
}

/// A row of `len` tiles holds at most `len` tiles of any one verdict.
pub proof fn lemma_count_in_row_bound(
    cut: Seq<bool>,
    target: Seq<bool>,
    kind: TileVerdict,
    len: nat,
)
    ensures
        count_in_row(cut, target, kind, len) <= len,
    decreases len,
{
    if len > 0 {
        lemma_count_in_row_bound(cut, target, kind, (len - 1) as nat);
    }
}

/// The first `rows` rows of a grid of side `n` hold at most `rows * n` tiles
/// of any one verdict.
pub proof fn lemma_count_in_rows_bound(
    cut: Seq<Seq<bool>>,
    target: Seq<Seq<bool>>,
    kind: TileVerdict,
    n: nat,
    rows: nat,
)
    ensures
        count_in_rows(cut, target, kind, n, rows) <= rows * n,
    decreases rows,
{
    if rows > 0 {
        let x = (rows - 1) as nat;
        lemma_count_in_rows_bound(cut, target, kind, n, x);
        lemma_count_in_row_bound(cut[x as int], target[x as int], kind, n);
        assert((x + 1) * n == x * n + n) by (nonlinear_arith);
    }
}

/// A row prefix holds no tile of verdict `kind` exactly when none of its
/// tiles has that verdict.
pub proof fn lemma_count_in_row_zero(cut: Seq<bool>, target: Seq<bool>, kind: TileVerdict, len: nat)
    ensures
        count_in_row(cut, target, kind, len) == 0 <==> forall|z: int|
            0 <= z < len ==> verdict(#[trigger] cut[z], target[z]) != kind,
    decreases len,
{
    if len > 0 {
        lemma_count_in_row_zero(cut, target, kind, (len - 1) as nat);
        if count_in_row(cut, target, kind, len) != 0 && count_in_row(
            cut,
            target,
            kind,
            (len - 1) as nat,
        ) == 0 {
            assert(verdict(cut[len - 1], target[len - 1]) == kind);
        }
    }
}

/// The first `rows` rows of a grid hold no tile of verdict `kind` exactly
/// when none of their tiles has that verdict.
pub proof fn lemma_count_in_rows_zero(
    cut: Seq<Seq<bool>>,
    target: Seq<Seq<bool>>,
    kind: TileVerdict,
    n: nat,
    rows: nat,
)
    ensures
        count_in_rows(cut, target, kind, n, rows) == 0 <==> forall|x: int, z: int|
            0 <= x < rows && 0 <= z < n ==> verdict(#[trigger] cut[x][z], target[x][z]) != kind,
    decreases rows,
{
    if rows > 0 {
        let last = rows - 1;
        lemma_count_in_rows_zero(cut, target, kind, n, last as nat);
        lemma_count_in_row_zero(cut[last], target[last], kind, n);
        if count_in_rows(cut, target, kind, n, rows) != 0 {
            if count_in_rows(cut, target, kind, n, last as nat) == 0 {
                let z = choose|z: int|
                    0 <= z < n && verdict(#[trigger] cut[last][z], target[last][z]) == kind;
                assert(verdict(cut[last][z], target[last][z]) == kind);
            } else {
                let (x, z) = choose|x: int, z: int|
                    0 <= x < last && 0 <= z < n && verdict(#[trigger] cut[x][z], target[x][z])
                        == kind;
                assert(verdict(cut[x][z], target[x][z]) == kind);
            }
        }
    }
}

/// A field has neither a mistake nor a forgotten tile exactly when its cut
/// matrix is the target pattern.
pub proof fn lemma_perfect_iff_match(cut: Seq<Seq<bool>>, target: Seq<Seq<bool>>, n: nat)
    requires
        is_square(cut, n),
        is_square(target, n),
    ensures
        (count_tiles(cut, target, TileVerdict::Mistake, n) == 0 && count_tiles(
            cut,
            target,
            TileVerdict::Forgotten,
            n,
        ) == 0) <==> cut == target,
{
    lemma_count_in_rows_zero(cut, target, TileVerdict::Mistake, n, n);
    lemma_count_in_rows_zero(cut, target, TileVerdict::Forgotten, n, n);
    if count_tiles(cut, target, TileVerdict::Mistake, n) == 0 && count_tiles(
        cut,
        target,
        TileVerdict::Forgotten,
        n,
    ) == 0 {
        assert forall|x: int| 0 <= x < n implies cut[x] =~= target[x] by {
            assert forall|z: int| 0 <= z < n implies cut[x][z] == target[x][z] by {
                assert(verdict(cut[x][z], target[x][z]) != TileVerdict::Mistake);
                assert(verdict(cut[x][z], target[x][z]) != TileVerdict::Forgotten);
            }
        }
        assert(cut =~= target);
    }
}

/// The mistakes and the forgotten tiles of a grid of side `n` number at most
/// `n * n` each.
pub proof fn lemma_count_tiles_bound(
    cut: Seq<Seq<bool>>,
    target: Seq<Seq<bool>>,
    kind: TileVerdict,
    n: nat,
)
    ensures
        count_tiles(cut, target, kind, n) <= n * n,
{
    lemma_count_in_rows_bound(cut, target, kind, n, n);
}

/// On a valid level the counters of a score hold the counts themselves:
/// nothing is lost to their width.
pub proof fn lemma_score_of_exact(cut: Seq<Seq<bool>>, level: LevelView)
    requires
        level_valid(level),
    ensures
        score_of(cut, level).mistakes == count_tiles(
            cut,
            level.target,
            TileVerdict::Mistake,
            level.grid_size,
        ),
        score_of(cut, level).forgotten == count_tiles(
            cut,
            level.target,
            TileVerdict::Forgotten,
            level.grid_size,
        ),
{
    let n = level.grid_size;
    lemma_count_tiles_bound(cut, level.target, TileVerdict::Mistake, n);
    lemma_count_tiles_bound(cut, level.target, TileVerdict::Forgotten, n);
    assert(n * n <= 65535 * 65535) by (nonlinear_arith)
        requires
            n <= 65535,
    ;
}

impl GameScore {
    /// Whether nothing is wrong: no mistake and no forgotten tile.
    pub fn is_perfect(&self) -> (perfect: bool)
        ensures
            perfect == (self.mistakes == 0 && self.forgotten == 0),
    {
        self.mistakes == 0 && self.forgotten == 0
    }
}

/// The verdict on the tile at `(x, z)`; `None` outside the field.
pub fn classify(grid: &GridState, level: &LevelDefinition, x: usize, z: usize) -> (found: Option<
    TileVerdict,
>)
    requires
        grid.wf(),
        level.wf(),
        grid.spec_size() == level@.grid_size,
    ensures
        found == if x < level@.grid_size && z < level@.grid_size {
            Some(verdict(grid@[x as int][z as int], level@.target[x as int][z as int]))
        } else {
            None
        },
{
    let n = grid.size();
    if x < n && z < n {
        assert(grid@[x as int].len() == n && level@.target[x as int].len() == n);
        let is_cut = grid.is_cut(x, z);
        let must_cut = level.must_cut(x, z);
        if is_cut && !must_cut {
            Some(TileVerdict::Mistake)
        } else if !is_cut && must_cut {
            Some(TileVerdict::Forgotten)
        } else {
            Some(TileVerdict::Correct)
        }
    } else {
        None
    }
}

/// Compares the field with the target pattern of `level`, tile by tile: a
/// tile that is cut against the pattern is a mistake, a tile that is left
/// standing against the pattern is forgotten, and the attempt passes when
/// neither count exceeds its threshold. The score is without fault exactly
/// when the field matches the pattern.
pub fn evaluate(grid: &GridState, level: &LevelDefinition) -> (score: GameScore)
    requires
        grid.wf(),
        level.wf(),
        grid.spec_size() == level@.grid_size,
    ensures
        score == score_of(grid@, level@),
        score.mistakes == count_tiles(grid@, level@.target, TileVerdict::Mistake, level@.grid_size),
        score.forgotten == count_tiles(
            grid@,
            level@.target,
            TileVerdict::Forgotten,
            level@.grid_size,
        ),
        score.passed == (score.mistakes <= level@.mistake_threshold && score.forgotten
            <= level@.forgotten_threshold),
        score.mistakes == tiles_with(
            grid@,
            level@.target,
            TileVerdict::Mistake,
            level@.grid_size,
        ).len(),
        score.forgotten == tiles_with(
            grid@,
            level@.target,
            TileVerdict::Forgotten,
            level@.grid_size,
        ).len(),
        (score.mistakes == 0 && score.forgotten == 0) <==> grid@ == level@.target,
{
    proof {
        lemma_perfect_iff_match(grid@, level@.target, level@.grid_size);
        lemma_count_is_cardinality(grid@, level@.target, TileVerdict::Mistake, level@.grid_size);
        lemma_count_is_cardinality(grid@, level@.target, TileVerdict::Forgotten, level@.grid_size);
    }
    let n = grid.size();
    let cut = grid.snapshot();
    let target = level.target_pattern();
    let ghost field = grid@;
    let ghost pattern = level@.target;
    let mut mistakes: u32 = 0;
    let mut forgotten: u32 = 0;
    let mut x: usize = 0;
    while x < n
        invariant
            x <= n <= MAX_GRID_SIZE,
            field == matrix_of(cut),
            pattern == matrix_of(target),
            is_square(field, n as nat),
            is_square(pattern, n as nat),
            mistakes == count_in_rows(field, pattern, TileVerdict::Mistake, n as nat, x as nat),
            forgotten == count_in_rows(field, pattern, TileVerdict::Forgotten, n as nat, x as nat),
        decreases n - x,
    {
        let ghost mistakes_above = mistakes;
        let ghost forgotten_above = forgotten;
        let mut z: usize = 0;
        while z < n
            invariant
                z <= n <= MAX_GRID_SIZE,
                x < n,
                field == matrix_of(cut),
                pattern == matrix_of(target),
                is_square(field, n as nat),
                is_square(pattern, n as nat),
                mistakes_above == count_in_rows(
                    field,
                    pattern,
                    TileVerdict::Mistake,
                    n as nat,
                    x as nat,
                ),
                forgotten_above == count_in_rows(
                    field,
                    pattern,
                    TileVerdict::Forgotten,
                    n as nat,
                    x as nat,
                ),
                mistakes == mistakes_above + count_in_row(
                    field[x as int],
                    pattern[x as int],
                    TileVerdict::Mistake,
                    z as nat,
                ),
                forgotten == forgotten_above + count_in_row(
                    field[x as int],
                    pattern[x as int],
                    TileVerdict::Forgotten,
                    z as nat,
                ),
            decreases n - z,
        {
            proof {
                let above = x as nat;
                let left = z as nat;
                let row = field[x as int];
                let wanted = pattern[x as int];
                lemma_count_in_rows_bound(field, pattern, TileVerdict::Mistake, n as nat, above);
                lemma_count_in_rows_bound(field, pattern, TileVerdict::Forgotten, n as nat, above);
                lemma_count_in_row_bound(row, wanted, TileVerdict::Mistake, left);
                lemma_count_in_row_bound(row, wanted, TileVerdict::Forgotten, left);
                assert(x * n + z < 65535 * 65535) by (nonlinear_arith)
                    requires
                        x < n,
                        z < n,
                        n <= 65535,
                ;
            }
            let is_cut = cut[x][z];
            let must_cut = target[x][z];
            if must_cut && !is_cut {
                forgotten = forgotten + 1;
            } else if !must_cut && is_cut {
                mistakes = mistakes + 1;
            }
            z = z + 1;
        }
        x = x + 1;
    }
    let passed = mistakes <= level.mistake_threshold() && forgotten <= level.forgotten_threshold();
    GameScore { forgotten, mistakes, passed }
}

} // verus!
