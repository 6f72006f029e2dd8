//! The ground the field lies in: the field itself and a margin of bare
//! ground around it.

use vstd::prelude::*;

verus! {

/// Width of the margin around the field, in tiles.
pub const WORLD_OFFSET_OF_GRID: isize = 5;

/// What lies at a place of the ground.
#[derive(Debug, Clone, Copy, PartialEq, Eq, Hash, Structural)]
pub enum FloorKind {
    /// A tile of the field, where corn grows.
    Field,
    /// Bare ground outside the field.
    Margin,
}

/// What lies at `(x, z)` around a field of side `size`: the field covers the
/// coordinates from `0` up to `size - 1` on both axes.
pub open spec fn floor_kind_of(x: int, z: int, size: nat) -> FloorKind {
    if 0 <= x < size && 0 <= z < size {
        FloorKind::Field
    } else {
        FloorKind::Margin
    }
}

/// What lies at `(x, z)` around a field of side `size`.
pub fn floor_kind(x: isize, z: isize, size: usize) -> (kind: FloorKind)
    ensures
        kind == floor_kind_of(x as int, z as int, size as nat),
{
    if x >= 0 && z >= 0 && (x as usize) < size && (z as usize) < size {
        FloorKind::Field
    } else {
        FloorKind::Margin
    }
}

} // verus!
