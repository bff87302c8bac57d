use vstd::prelude::*;

verus! {

/// The six neighbours of a cell of a hexagonal grid in axial coordinates.
pub enum AxialHexGridDirection {
    NorthWest,
    NorthEast,
    East,
    SouthEast,
    SouthWest,
    West,
}

} // verus!
