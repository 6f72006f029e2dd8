//! Boolean matrices as nested sequences: the mathematical model shared by the
//! field of tiles and the target patterns.

use vstd::prelude::*;

verus! {

/// The matrix that nested vectors hold: cell `(x, z)` is `rows[x][z]`.
pub open spec fn matrix_of<T>(rows: &Vec<Vec<T>>) -> Seq<Seq<T>> {
    Seq::new(rows@.len(), |x: int| rows@[x]@)
}

/// `m` has exactly `n` rows of exactly `n` cells each.
pub open spec fn is_square(m: Seq<Seq<bool>>, n: nat) -> bool {
    &&& m.len() == n
    &&& forall|x: int| 0 <= x < n ==> (#[trigger] m[x]).len() == n
}

/// The `n` by `n` matrix whose cells are all `false`.
pub open spec fn blank(n: nat) -> Seq<Seq<bool>> {
    Seq::new(n, |x: int| Seq::new(n, |z: int| false))
}

/// `(x, z)` addresses a cell of `m`.
pub open spec fn in_bounds(m: Seq<Seq<bool>>, x: int, z: int) -> bool {
    0 <= x < m.len() && 0 <= z < m[x].len()
}

/// `m` with the cell at `(x, z)` set to `true`; `m` itself when `(x, z)` is
/// not a cell of `m`.
pub open spec fn with_cut(m: Seq<Seq<bool>>, x: int, z: int) -> Seq<Seq<bool>> {
    if in_bounds(m, x, z) {
        m.update(x, m[x].update(z, true))
    } else {
        m
    }
}

/// A blank matrix is square, and none of its cells is set.
pub proof fn lemma_blank_all_clear(n: nat)
    ensures
        is_square(blank(n), n),
        forall|x: int, z: int| 0 <= x < n && 0 <= z < n ==> !(#[trigger] blank(n)[x][z]),
{
}

/// Cutting outside the matrix changes nothing.
pub proof fn lemma_cut_out_of_bounds(m: Seq<Seq<bool>>, x: int, z: int)
    requires
        !in_bounds(m, x, z),
    ensures
        with_cut(m, x, z) == m,
{
}

/// Cutting a cell sets that cell and no other, and keeps the shape of the
/// matrix.
pub proof fn lemma_cut_sets_one_cell(m: Seq<Seq<bool>>, n: nat, x: int, z: int)
    requires
        is_square(m, n),
    ensures
        is_square(with_cut(m, x, z), n),
        forall|i: int, j: int|
            0 <= i < n && 0 <= j < n ==> (#[trigger] with_cut(m, x, z)[i][j]) == (m[i][j] || (i == x
                && j == z)),
{
}

/// Cutting the same cell twice gives the matrix that cutting it once gives.
pub proof fn lemma_cut_idempotent(m: Seq<Seq<bool>>, x: int, z: int)
    ensures
        with_cut(with_cut(m, x, z), x, z) == with_cut(m, x, z),
{
    if in_bounds(m, x, z) {
        let once = with_cut(m, x, z);
        assert(once[x].update(z, true) =~= once[x]);
        assert(with_cut(once, x, z) =~= once);
    }
}

} // verus!
