use vstd::prelude::*;
use super::component::ComponentType;

verus! {

/// What can go wrong in the entity store and in a dispatch.
#[derive(Clone, Debug, PartialEq, Eq)]
pub enum EcsError {
    /// The handle does not name a live row of the archetype it was given to.
    UnknownEntity,
    /// The named component type is not part of the archetype's shape.
    ComponentNotPresent(ComponentType),
    /// A list of component types names the same type twice.
    AliasConflict,
    /// The update of the row with the given index failed, with the cause that
    /// the system reported.
    SystemExecutionFailure(usize, String),
}

} // verus!
