use vstd::prelude::*;
use super::system::System;
use rayon::iter::IntoParallelRefMutIterator;
use rayon::iter::IndexedParallelIterator;
use rayon::iter::ParallelIterator;

verus! {

/// What one row may look like after a dispatch that may have stopped early:
/// it keeps its length, and unless its update fails it is either untouched or
/// fully updated.
pub open spec fn row_outcome<V, S: System<V>>(system: &S, before: Seq<V>, after: Seq<V>) -> bool {
    &&& after.len() == before.len()
    &&& (after == before || system.fails(before) || after == system.updated(before))
}

/// Runs the update of `system` on one row and tags a failure with the row's
/// index.
pub(crate) fn run_row<V, S: System<V>>(system: &S, index: usize, row: &mut Vec<V>) -> (outcome:
    Result<(), (usize, String)>)
    requires
        old(row)@.len() == system.required().len(),
    ensures
        final(row)@.len() == old(row)@.len(),
        outcome is Err <==> system.fails(old(row)@),
        outcome is Ok ==> final(row)@ == system.updated(old(row)@),
        outcome matches Err(failure) ==> failure.0 == index && failure.1@ == system.cause(
            old(row)@,
        ),
{
    match system.update(row) {
        Ok(()) => Ok(()),
        Err(cause) => Err((index, cause)),
    }
}

/// Updates every row on rayon's thread pool, through
/// `par_iter_mut().enumerate().try_for_each(..)`, which hands each row with its
/// index to `run_row` at most once and returns when all calls have returned.
///
/// Believed of rayon, not proved: the vector keeps its length; every row was
/// either left alone or handed to `run_row` once; `Ok` comes back only when
/// every row was handed over and none failed; an `Err` is what `run_row`
/// returned for one of the rows, which of them is not fixed when several fail.
#[verifier::external_body]
pub(crate) fn update_rows_in_parallel<V: Send, S: System<V> + Sync>(
    system: &S,
    rows: &mut Vec<Vec<V>>,
) -> (outcome: Result<(), (usize, String)>)
    requires
        forall|i: int|
            0 <= i < old(rows)@.len() ==> (#[trigger] old(rows)@[i])@.len()
                == system.required().len(),
    ensures
        final(rows)@.len() == old(rows)@.len(),
        forall|i: int|
            0 <= i < old(rows)@.len() ==> row_outcome(
                system,
                old(rows)@[i]@,
                (#[trigger] final(rows)@[i])@,
            ),
        outcome is Ok ==> forall|i: int|
            0 <= i < old(rows)@.len() ==> !system.fails((#[trigger] old(rows)@[i])@),
        outcome is Ok ==> forall|i: int|
            0 <= i < old(rows)@.len() ==> (#[trigger] final(rows)@[i])@ == system.updated(
                old(rows)@[i]@,
            ),
        outcome matches Err(failure) ==> {
            &&& failure.0 < old(rows)@.len()
            &&& system.fails(old(rows)@[failure.0 as int]@)
            &&& failure.1@ == system.cause(old(rows)@[failure.0 as int]@)
        },
{
    rows.par_iter_mut().enumerate().try_for_each(|(index, row)| run_row(system, index, row))
}

/// Updates the rows one after the other, in row order, and stops at the first
/// row whose update fails.
pub(crate) fn update_rows_in_order<V, S: System<V>>(system: &S, rows: &mut Vec<Vec<V>>) -> (outcome:
    Result<(), (usize, String)>)
    requires
        forall|i: int|
            0 <= i < old(rows)@.len() ==> (#[trigger] old(rows)@[i])@.len()
                == system.required().len(),
    ensures
        final(rows)@.len() == old(rows)@.len(),
        forall|i: int|
            0 <= i < old(rows)@.len() ==> row_outcome(
                system,
                old(rows)@[i]@,
                (#[trigger] final(rows)@[i])@,
            ),
        outcome is Ok ==> forall|i: int|
            0 <= i < old(rows)@.len() ==> !system.fails((#[trigger] old(rows)@[i])@),
        outcome is Ok ==> forall|i: int|
            0 <= i < old(rows)@.len() ==> (#[trigger] final(rows)@[i])@ == system.updated(
                old(rows)@[i]@,
            ),
        outcome matches Err(failure) ==> {
            &&& failure.0 < old(rows)@.len()
            &&& system.fails(old(rows)@[failure.0 as int]@)
            &&& failure.1@ == system.cause(old(rows)@[failure.0 as int]@)
            &&& forall|i: int| 0 <= i < failure.0 ==> !system.fails((#[trigger] old(rows)@[i])@)
            &&& forall|i: int|
                0 <= i < failure.0 ==> (#[trigger] final(rows)@[i])@ == system.updated(
                    old(rows)@[i]@,
                )
            &&& forall|i: int|
                failure.0 < i < old(rows)@.len() ==> (#[trigger] final(rows)@[i])@ == old(rows)@[i]@
        },
{
    let n = rows.len();
    let mut i: usize = 0;
    while i < n
        invariant
            i <= n,
            n == old(rows)@.len(),
            rows@.len() == n,
            forall|r: int|
                0 <= r < n ==> (#[trigger] old(rows)@[r])@.len() == system.required().len(),
            forall|r: int| 0 <= r < i ==> !system.fails((#[trigger] old(rows)@[r])@),
            forall|r: int|
                0 <= r < i ==> (#[trigger] rows@[r])@ == system.updated(old(rows)@[r]@),
            forall|r: int| 0 <= r < i ==> (#[trigger] rows@[r])@.len() == old(rows)@[r]@.len(),
            forall|r: int| i <= r < n ==> (#[trigger] rows@[r])@ == old(rows)@[r]@,
        decreases n - i,
    {
        let ghost earlier = rows@;
        assert(earlier[i as int]@ == old(rows)@[i as int]@);
        let outcome = run_row(system, i, &mut rows[i]);
        assert(forall|r: int| 0 <= r < n && r != i ==> (#[trigger] rows@[r]) == earlier[r]);
        if outcome.is_err() {
            return outcome;
        }
        assert(!system.fails(old(rows)@[i as int]@));
        assert(rows@[i as int]@ == system.updated(old(rows)@[i as int]@));
        i += 1;
    }
    Ok(())
}

} // verus!
