use vstd::prelude::*;
use super::error::EcsError;
use super::parallel::{row_outcome, update_rows_in_order, update_rows_in_parallel};
use super::rows::{
    grid, lemma_with_rows_round_trip, selected_row, selected_rows, updated_rows, with_rows,
    without_selected,
};
use super::selection::{Selection, compatible, first_missing, resolved, lemma_alias_freedom};
use super::storage::{ArchetypeStorage, ArchetypeView};
use super::system::System;

verus! {

/// The archetype after `update` was applied to every row, cut down to the
/// selected columns: the value that `update` leaves at place `j` of a row goes
/// back into the column selected at place `j`.
pub open spec fn dispatched<V>(
    before: ArchetypeView<V>,
    selected: Seq<int>,
    update: spec_fn(Seq<V>) -> Seq<V>,
) -> ArchetypeView<V> {
    before.with_columns(
        with_rows(
            before.columns,
            selected,
            updated_rows(selected_rows(before.columns, selected, before.len()), update),
        ),
    )
}

/// The update of `system` as a function on rows.
pub open spec fn update_of<V, S: System<V>>(system: &S) -> spec_fn(Seq<V>) -> Seq<V> {
    |row: Seq<V>| system.updated(row)
}

/// Whether the update of `system` fails on some row of `before`, cut down to
/// the selected columns.
pub open spec fn some_row_fails<V, S: System<V>>(
    system: &S,
    selected: Seq<int>,
    before: ArchetypeView<V>,
) -> bool {
    exists|i: int|
        0 <= i < before.len() && system.fails(#[trigger] selected_row(before.columns, selected, i))
}

/// What a dispatch of `system` over the selected columns leaves behind, whether
/// it ran to the end or stopped at a failure.
///
/// Shape, handles and the columns that are not selected stay as they were.
/// Every row keeps its length and, unless its update fails, is either
/// untouched or fully updated. The dispatch succeeds exactly when no row
/// fails, and then every row is updated. A failure names a row on which the
/// update fails.
pub open spec fn dispatch_outcome<V, S: System<V>>(
    system: &S,
    selected: Seq<int>,
    before: ArchetypeView<V>,
    after: ArchetypeView<V>,
    outcome: Result<(), EcsError>,
) -> bool {
    &&& after == before.with_columns(after.columns)
    &&& after.columns.len() == before.columns.len()
    &&& forall|c: int|
        0 <= c < before.columns.len() && !selected.contains(c) ==> #[trigger] after.columns[c]
            == before.columns[c]
    &&& forall|i: int|
        0 <= i < before.len() ==> row_outcome(
            system,
            selected_row(before.columns, selected, i),
            #[trigger] selected_row(after.columns, selected, i),
        )
    &&& outcome is Ok <==> !some_row_fails(system, selected, before)
    &&& outcome is Ok ==> after == dispatched(before, selected, update_of(system))
    &&& outcome matches Err(e) ==> failure_of(system, selected, before, e)
}

/// Whether `e` is the failure of the update of `system` on one of the rows of
/// `before`: it names a row on which the update fails, with the message that
/// the update gives for that row.
pub open spec fn failure_of<V, S: System<V>>(
    system: &S,
    selected: Seq<int>,
    before: ArchetypeView<V>,
    e: EcsError,
) -> bool {
    e matches EcsError::SystemExecutionFailure(i, message) && i < before.len() && system.fails(
        selected_row(before.columns, selected, i as int),
    ) && message@ == system.cause(selected_row(before.columns, selected, i as int))
}

/// What a dispatch in row order leaves behind on top of `dispatch_outcome`: a
/// failure names the first row on which the update fails, the rows before it
/// are updated and the rows after it are untouched.
pub open spec fn in_order_outcome<V, S: System<V>>(
    system: &S,
    selected: Seq<int>,
    before: ArchetypeView<V>,
    after: ArchetypeView<V>,
    outcome: Result<(), EcsError>,
) -> bool {
    outcome matches Err(e) ==> (e matches EcsError::SystemExecutionFailure(at, _) && {
        &&& forall|i: int|
            0 <= i < at ==> !system.fails(#[trigger] selected_row(before.columns, selected, i))
        &&& forall|i: int|
            0 <= i < at ==> #[trigger] selected_row(after.columns, selected, i)
                == system.updated(selected_row(before.columns, selected, i))
        &&& forall|i: int|
            at < i < before.len() ==> #[trigger] selected_row(after.columns, selected, i)
                == selected_row(before.columns, selected, i)
    })
}

/// Turns the outcome of a run over the rows into the result of the dispatch: a
/// failure becomes `SystemExecutionFailure` with the row's index and the cause.
pub fn conclude(outcome: Result<(), (usize, String)>) -> (result: Result<(), EcsError>)
    ensures
        outcome is Ok ==> result is Ok,
        outcome matches Err(failure) ==> result == Err::<(), EcsError>(
            EcsError::SystemExecutionFailure(failure.0, failure.1),
        ),
{
    match outcome {
        Ok(done) => Ok(done),
        Err(failure) => Err(EcsError::SystemExecutionFailure(failure.0, failure.1)),
    }
}

/// The facts that tie the rows handed back by the runner to `dispatch_outcome`.
proof fn lemma_dispatch_outcome<V, S: System<V>>(
    system: &S,
    selected: Seq<int>,
    before: ArchetypeView<V>,
    after: ArchetypeView<V>,
    taken: Seq<Seq<V>>,
    given: Seq<Seq<V>>,
)
    requires
        before.wf(),
        selected.no_duplicates(),
        forall|j: int| 0 <= j < selected.len() ==> 0 <= #[trigger] selected[j] < before.columns.len(),
        taken == selected_rows(before.columns, selected, before.len()),
        given.len() == taken.len(),
        forall|i: int| 0 <= i < given.len() ==> (#[trigger] given[i]).len() == selected.len(),
        after == before.with_columns(
            with_rows(without_selected(before.columns, selected), selected, given),
        ),
    ensures
        after.wf(),
        after == before.with_columns(with_rows(before.columns, selected, given)),
        selected_rows(after.columns, selected, before.len()) == given,
        forall|c: int|
            0 <= c < before.columns.len() && !selected.contains(c) ==> #[trigger] after.columns[c]
                == before.columns[c],
{
    let emptied = without_selected(before.columns, selected);
    assert(with_rows(emptied, selected, given) =~= with_rows(before.columns, selected, given));
    lemma_with_rows_round_trip(before.columns, selected, given);
    assert forall|c: int| 0 <= c < after.columns.len() implies (#[trigger] after.columns[c]).len()
        == after.len() by {}
}

impl<V> ArchetypeStorage<V> {
    /// Applies `system` to every row over the columns of `selection`, on the
    /// thread pool. The call returns when all rows are done or one has failed.
    ///
    /// The order in which rows are updated is not fixed. When a row fails, the
    /// rows that were already updated stay updated and the failure of one
    /// failing row is returned.
    pub fn dispatch<S>(&mut self, selection: &Selection, system: &S) -> (result: Result<
        (),
        EcsError,
    >) where V: Send, S: System<V> + Sync
        requires
            old(self)@.wf(),
            selection.selects(old(self)@.shape, system.required()),
        ensures
            final(self)@.wf(),
            dispatch_outcome(system, selection.columns(), old(self)@, final(self)@, result),
    {
        let ghost before = self@;
        let ghost selected = selection.columns();
        proof {
            lemma_alias_freedom(before.shape, system.required());
        }
        let mut rows = self.take_rows(selection);
        let ghost taken = grid(rows@);
        proof {
            assert(taken =~= selected_rows(before.columns, selected, before.len()));
        }
        let ghost handed = rows@;
        let outcome = update_rows_in_parallel(system, &mut rows);
        let ghost given = grid(rows@);
        proof {
            assert forall|j: int| 0 <= j < selected.len() implies (
            #[trigger] self@.columns[selected[j]]).len() == 0 by {
                assert(selected.contains(selected[j]));
            }
        }
        self.restore_rows(selection, rows);
        proof {
            lemma_dispatch_outcome(system, selected, before, self@, taken, given);
            lemma_rows_to_outcome(system, selected, before, self@, taken, given);
            if outcome is Ok {
                assert(given =~= updated_rows(taken, update_of(system)));
                assert forall|i: int| 0 <= i < before.len() implies !system.fails(
                    #[trigger] selected_row(before.columns, selected, i),
                ) by {
                    assert(handed[i]@ == taken[i]);
                }
            }
        }
        conclude(outcome)
    }

    /// Applies `system` to every row over the columns of `selection`, one row
    /// after the other in row order, and stops at the first row that fails.
    pub fn dispatch_in_order<S: System<V>>(&mut self, selection: &Selection, system: &S) -> (result:
        Result<(), EcsError>)
        requires
            old(self)@.wf(),
            selection.selects(old(self)@.shape, system.required()),
        ensures
            final(self)@.wf(),
            dispatch_outcome(system, selection.columns(), old(self)@, final(self)@, result),
            in_order_outcome(system, selection.columns(), old(self)@, final(self)@, result),
    {
        let ghost before = self@;
        let ghost selected = selection.columns();
        proof {
            lemma_alias_freedom(before.shape, system.required());
        }
        let mut rows = self.take_rows(selection);
        let ghost taken = grid(rows@);
        proof {
            assert(taken =~= selected_rows(before.columns, selected, before.len()));
        }
        let ghost handed = rows@;
        let outcome = update_rows_in_order(system, &mut rows);
        let ghost given = grid(rows@);
        let ghost finished = rows@;
        proof {
            assert forall|j: int| 0 <= j < selected.len() implies (
            #[trigger] self@.columns[selected[j]]).len() == 0 by {
                assert(selected.contains(selected[j]));
            }
        }
        self.restore_rows(selection, rows);
        proof {
            lemma_dispatch_outcome(system, selected, before, self@, taken, given);
            lemma_rows_to_outcome(system, selected, before, self@, taken, given);
            if outcome is Ok {
                assert(given =~= updated_rows(taken, update_of(system)));
                assert forall|i: int| 0 <= i < before.len() implies !system.fails(
                    #[trigger] selected_row(before.columns, selected, i),
                ) by {
                    assert(handed[i]@ == taken[i]);
                }
            }
            let after = self@;
            assert forall|i: int| 0 <= i < before.len() implies #[trigger] selected_row(
                after.columns,
                selected,
                i,
            ) == given[i] && selected_row(before.columns, selected, i) == taken[i] by {
                assert(selected_rows(after.columns, selected, before.len())[i] == given[i]);
            }
            if outcome is Err {
                let failure = outcome->Err_0;
                assert forall|i: int| 0 <= i < failure.0 implies !system.fails(
                    #[trigger] selected_row(before.columns, selected, i),
                ) by {
                    assert(handed[i]@ == taken[i]);
                }
                assert forall|i: int| 0 <= i < failure.0 implies #[trigger] selected_row(
                    after.columns,
                    selected,
                    i,
                ) == system.updated(selected_row(before.columns, selected, i)) by {
                    assert(handed[i]@ == taken[i]);
                    assert(given[i] == finished[i]@);
                }
                assert forall|i: int| failure.0 < i < before.len() implies #[trigger] selected_row(
                    after.columns,
                    selected,
                    i,
                ) == selected_row(before.columns, selected, i) by {
                    assert(handed[i]@ == taken[i]);
                    assert(given[i] == finished[i]@);
                }
            }
        }
        conclude(outcome)
    }

    /// Resolves the requirement of `system` against this archetype and applies
    /// it to every row, on the thread pool.
    ///
    /// An archetype that lacks one of the required types is left alone and the
    /// earliest missing type is reported; so is a requirement that names a type
    /// twice.
    pub fn apply_system<S>(&mut self, system: &S) -> (result: Result<(), EcsError>) where
        V: Send,
        S: System<V> + Sync,

        requires
            old(self)@.wf(),
        ensures
            final(self)@.wf(),
            !compatible(old(self)@.shape, system.required()) ==> final(self)@ == old(self)@
                && exists|j: int|
                first_missing(old(self)@.shape, system.required(), j) && result == Err::<
                    (),
                    EcsError,
                >(EcsError::ComponentNotPresent(system.required()[j])),
            compatible(old(self)@.shape, system.required()) && !system.required().no_duplicates()
                ==> final(self)@ == old(self)@ && result == Err::<(), EcsError>(
                EcsError::AliasConflict,
            ),
            compatible(old(self)@.shape, system.required()) && system.required().no_duplicates()
                ==> dispatch_outcome(
                system,
                resolved(old(self)@.shape, system.required()),
                old(self)@,
                final(self)@,
                result,
            ),
    {
        let requirement = system.requirement();
        match Selection::resolve(self.shape(), &requirement) {
            Ok(selection) => self.dispatch(&selection, system),
            Err(e) => Err(e),
        }
    }

    /// Resolves the requirement of `system` against this archetype and applies
    /// it to every row in row order, stopping at the first row that fails.
    pub fn apply_system_in_order<S: System<V>>(&mut self, system: &S) -> (result: Result<
        (),
        EcsError,
    >)
        requires
            old(self)@.wf(),
        ensures
            final(self)@.wf(),
            !compatible(old(self)@.shape, system.required()) ==> final(self)@ == old(self)@
                && exists|j: int|
                first_missing(old(self)@.shape, system.required(), j) && result == Err::<
                    (),
                    EcsError,
                >(EcsError::ComponentNotPresent(system.required()[j])),
            compatible(old(self)@.shape, system.required()) && !system.required().no_duplicates()
                ==> final(self)@ == old(self)@ && result == Err::<(), EcsError>(
                EcsError::AliasConflict,
            ),
            compatible(old(self)@.shape, system.required()) && system.required().no_duplicates()
                ==> dispatch_outcome(
                system,
                resolved(old(self)@.shape, system.required()),
                old(self)@,
                final(self)@,
                result,
            ) && in_order_outcome(
                system,
                resolved(old(self)@.shape, system.required()),
                old(self)@,
                final(self)@,
                result,
            ),
    {
        let requirement = system.requirement();
        match Selection::resolve(self.shape(), &requirement) {
            Ok(selection) => self.dispatch_in_order(&selection, system),
            Err(e) => Err(e),
        }
    }
}

/// From what holds of each row after the run to what holds of the rows of the
/// archetype after they were put back.
proof fn lemma_rows_to_outcome<V, S: System<V>>(
    system: &S,
    selected: Seq<int>,
    before: ArchetypeView<V>,
    after: ArchetypeView<V>,
    taken: Seq<Seq<V>>,
    given: Seq<Seq<V>>,
)
    requires
        taken == selected_rows(before.columns, selected, before.len()),
        given == selected_rows(after.columns, selected, before.len()),
        forall|i: int| 0 <= i < taken.len() ==> row_outcome(system, taken[i], #[trigger] given[i]),
    ensures
        forall|i: int|
            0 <= i < before.len() ==> row_outcome(
                system,
                selected_row(before.columns, selected, i),
                #[trigger] selected_row(after.columns, selected, i),
            ),
{
    assert forall|i: int| 0 <= i < before.len() implies row_outcome(
        system,
        selected_row(before.columns, selected, i),
        #[trigger] selected_row(after.columns, selected, i),
    ) by {
        assert(taken[i] == selected_row(before.columns, selected, i));
        assert(given[i] == selected_row(after.columns, selected, i));
    }
}

} // verus!
