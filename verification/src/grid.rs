//! The field of tiles of the running attempt.

use vstd::prelude::*;
use crate::matrix::{blank, in_bounds, is_square, matrix_of, with_cut};

verus! {

/// A row of `len` cells, none of them set.
pub(crate) fn blank_row(len: usize) -> (row: Vec<bool>)
    ensures
        row@ == Seq::new(len as nat, |z: int| false),
{
    let mut row: Vec<bool> = Vec::new();
    let mut z: usize = 0;
    while z < len
        invariant
            z <= len,
            row@ == Seq::new(z as nat, |i: int| false),
        decreases len - z,
    {
        row.push(false);
        z = z + 1;
    }
    row
}

/// Which tiles of a square field the player has cut so far.
#[derive(Debug)]
pub struct GridState {
    cut: Vec<Vec<bool>>,
}

impl View for GridState {
    type V = Seq<Seq<bool>>;

    /// The cut matrix: `self@[x][z]` is `true` when the tile at `(x, z)` is cut.
    closed spec fn view(&self) -> Seq<Seq<bool>> {
        matrix_of(&self.cut)
    }
}

impl GridState {
    /// Side length of the field: the number of rows of the cut matrix.
    pub open spec fn spec_size(&self) -> nat {
        self@.len()
    }

    /// The cut matrix is square.
    pub open spec fn wf(&self) -> bool {
        is_square(self@, self.spec_size())
    }

    /// A fresh field of side `size` with no tile cut.
    pub fn new(size: usize) -> (grid: GridState)
        ensures
            grid.wf(),
            grid.spec_size() == size,
            grid@ == blank(size as nat),
    {
        let mut cut: Vec<Vec<bool>> = Vec::new();
        let mut x: usize = 0;
        while x < size
            invariant
                x <= size,
                cut@.len() == x,
                forall|i: int| 0 <= i < x ==> (#[trigger] cut@[i])@ == blank(size as nat)[i],
            decreases size - x,
        {
            let row = blank_row(size);
            cut.push(row);
            x = x + 1;
        }
        assert(matrix_of(&cut) =~= blank(size as nat));
        GridState { cut }
    }

    /// Side length of the field.
    pub fn size(&self) -> (n: usize)
        ensures
            n == self.spec_size(),
    {
        self.cut.len()
    }

    /// The cut matrix, for reading: `cut[x][z]` is `true` when the tile at
    /// `(x, z)` is cut.
    pub fn snapshot(&self) -> (cut: &Vec<Vec<bool>>)
        ensures
            matrix_of(cut) == self@,
    {
        &self.cut
    }

    /// Whether the tile at `(x, z)` is cut; `false` outside the field.
    pub fn is_cut(&self, x: usize, z: usize) -> (cut: bool)
        ensures
            cut == (in_bounds(self@, x as int, z as int) && self@[x as int][z as int]),
    {
        if x < self.cut.len() && z < self.cut[x].len() {
            self.cut[x][z]
        } else {
            false
        }
    }

    /// Clears the field and gives it the side `size`: no tile is cut
    /// afterwards, whatever was cut before.
    pub fn reset(&mut self, size: usize)
        ensures
            final(self).wf(),
            final(self).spec_size() == size,
            final(self)@ == blank(size as nat),
    {
        *self = GridState::new(size);
    }

    /// Cuts the tile at `(x, z)`. Coordinates outside the field are ignored,
    /// and cutting a tile that is already cut changes nothing.
    pub fn cut_tile(&mut self, x: usize, z: usize)
        ensures
            final(self)@ == with_cut(old(self)@, x as int, z as int),
            !in_bounds(old(self)@, x as int, z as int) ==> final(self)@ == old(self)@,
            final(self).spec_size() == old(self).spec_size(),
            old(self).wf() ==> final(self).wf(),
    {
        if x < self.cut.len() && z < self.cut[x].len() {
            self.cut[x][z] = true;
            assert(self@ =~= with_cut(old(self)@, x as int, z as int));
        }
    }
}

} // verus!
