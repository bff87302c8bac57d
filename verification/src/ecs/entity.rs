use vstd::prelude::*;

verus! {

/// A handle to one row of one archetype.
///
/// The handle is a lookup key and owns nothing. `generation` is stamped by the
/// archetype each time it hands a handle out, so a handle that was issued
/// before its row was removed or moved can be told from the row's current
/// occupant.
#[derive(Clone, Copy, Debug, PartialEq, Eq, Structural, Hash)]
pub struct Entity {
    pub row_index: u32,
    pub archetype_id: u64,
    pub generation: u64,
}

impl Entity {
    /// Builds the handle for row `row_index` of archetype `archetype_id`,
    /// stamped with `generation`.
    pub fn new(row_index: u32, archetype_id: u64, generation: u64) -> (entity: Entity)
        ensures
            entity == (Entity { row_index, archetype_id, generation }),
    {
        Entity { row_index, archetype_id, generation }
    }
}

} // verus!
