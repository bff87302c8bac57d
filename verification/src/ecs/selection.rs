use vstd::prelude::*;
use super::component::{ComponentType, position, lemma_position, find_position, all_distinct};
use super::error::EcsError;

verus! {

/// Whether every type of `requirement` is a column of `shape`.
pub open spec fn compatible(shape: Seq<ComponentType>, requirement: Seq<ComponentType>) -> bool {
    forall|j: int| 0 <= j < requirement.len() ==> shape.contains(#[trigger] requirement[j])
}

/// Whether `j` is the first place of `requirement` whose type is no column of
/// `shape`.
pub open spec fn first_missing(
    shape: Seq<ComponentType>,
    requirement: Seq<ComponentType>,
    j: int,
) -> bool {
    &&& 0 <= j < requirement.len()
    &&& !shape.contains(requirement[j])
    &&& forall|h: int| 0 <= h < j ==> shape.contains(#[trigger] requirement[h])
}

/// The column of `shape` that holds each type of `requirement`, in the
/// requirement's order.
pub open spec fn resolved(shape: Seq<ComponentType>, requirement: Seq<ComponentType>) -> Seq<int> {
    Seq::new(requirement.len(), |j: int| position(shape, requirement[j]))
}

/// The columns of one archetype that a system works on: place `j` holds the
/// index of the column that stores the system's `j`-th required type.
#[derive(Clone, Debug, PartialEq, Eq)]
pub struct Selection {
    pub indices: Vec<usize>,
}

impl Selection {
    /// The column indices as mathematical integers.
    pub open spec fn columns(&self) -> Seq<int> {
        Seq::new(self.indices@.len(), |j: int| self.indices@[j] as int)
    }

    /// No column is selected twice.
    pub open spec fn alias_free(&self) -> bool {
        self.columns().no_duplicates()
    }

    /// Every selected index names a column of an archetype with `width`
    /// columns.
    pub open spec fn within(&self, width: int) -> bool {
        forall|j: int| 0 <= j < self.columns().len() ==> 0 <= #[trigger] self.columns()[j] < width
    }

    /// This selection is the one that `requirement` resolves to in `shape`.
    pub open spec fn selects(
        &self,
        shape: Seq<ComponentType>,
        requirement: Seq<ComponentType>,
    ) -> bool {
        &&& compatible(shape, requirement)
        &&& requirement.no_duplicates()
        &&& self.columns() == resolved(shape, requirement)
    }

    /// Looks up every type of `requirement` in `shape`.
    ///
    /// A type that is no column of `shape` is reported first, the earliest such
    /// type of the requirement. Otherwise a requirement that names a type twice
    /// is refused, since both places would select the same column.
    pub fn resolve(shape: &Vec<ComponentType>, requirement: &Vec<ComponentType>) -> (result: Result<
        Selection,
        EcsError,
    >)
        ensures
            compatible(shape@, requirement@) && requirement@.no_duplicates() ==> (result matches Ok(
                selection,
            ) && selection.selects(shape@, requirement@) && selection.alias_free()
                && selection.within(shape@.len() as int)),
            compatible(shape@, requirement@) && !requirement@.no_duplicates() ==> result == Err::<
                Selection,
                EcsError,
            >(EcsError::AliasConflict),
            !compatible(shape@, requirement@) ==> exists|j: int|
                first_missing(shape@, requirement@, j) && result == Err::<Selection, EcsError>(
                    EcsError::ComponentNotPresent(requirement@[j]),
                ),
    {
        let mut indices: Vec<usize> = Vec::new();
        let mut j: usize = 0;
        while j < requirement.len()
            invariant
                j <= requirement@.len(),
                indices@.len() == j,
                forall|h: int| 0 <= h < j ==> shape@.contains(#[trigger] requirement@[h]),
                forall|h: int|
                    0 <= h < j ==> (#[trigger] indices@[h]) as int == position(
                        shape@,
                        requirement@[h],
                    ),
            decreases requirement@.len() - j,
        {
            match find_position(shape, requirement[j]) {
                Some(p) => {
                    indices.push(p);
                },
                None => {
                    proof {
                        assert(first_missing(shape@, requirement@, j as int));
                    }
                    return Err(EcsError::ComponentNotPresent(requirement[j]));
                },
            }
            j += 1;
        }
        if !all_distinct(requirement) {
            return Err(EcsError::AliasConflict);
        }
        let selection = Selection { indices };
        proof {
            assert(selection.columns() =~= resolved(shape@, requirement@));
            lemma_alias_freedom(shape@, requirement@);
            assert forall|h: int| 0 <= h < selection.columns().len() implies 0
                <= #[trigger] selection.columns()[h] < shape@.len() by {
                lemma_position(shape@, requirement@[h]);
            }
        }
        Ok(selection)
    }

    /// The number of selected columns.
    pub fn len(&self) -> (n: usize)
        ensures
            n == self.columns().len(),
    {
        self.indices.len()
    }
}

/// Alias-freedom: a requirement of pairwise distinct types, all of them columns
/// of the shape, resolves to pairwise distinct column indices.
pub proof fn lemma_alias_freedom(shape: Seq<ComponentType>, requirement: Seq<ComponentType>)
    requires
        requirement.no_duplicates(),
        compatible(shape, requirement),
    ensures
        resolved(shape, requirement).no_duplicates(),
        forall|j: int|
            0 <= j < requirement.len() ==> 0 <= #[trigger] resolved(shape, requirement)[j]
                < shape.len(),
{
    let indices = resolved(shape, requirement);
    assert forall|j: int| 0 <= j < requirement.len() implies 0 <= #[trigger] indices[j]
        < shape.len() && shape[indices[j]] == requirement[j] by {
        assert(shape.contains(requirement[j]));
        lemma_position(shape, requirement[j]);
    }
    assert forall|a: int, b: int|
        0 <= a < indices.len() && 0 <= b < indices.len() && a != b implies indices[a]
        != indices[b] by {
        if indices[a] == indices[b] {
            assert(shape[indices[a]] == requirement[a]);
            assert(shape[indices[b]] == requirement[b]);
        }
    }
}

} // verus!
