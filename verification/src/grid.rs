use vstd::prelude::*;

pub mod axial_hex;

verus! {

/// A tiling of the plane: how its cells are addressed and in which directions
/// one can step from a cell to a neighbour.
pub trait Grid {
    type Direction;

    type Coordinate;
}

/// A walk over a grid, as the directions of its steps.
pub struct Path<GridT: Grid>(Vec<GridT::Direction>);

} // verus!
