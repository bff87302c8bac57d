use vstd::prelude::*;
use super::component::{ComponentType, position, lemma_position, lemma_position_of_entry};
use super::dispatch::dispatched;
use super::entity::Entity;
use super::rows::{selected_row, selected_rows, updated_rows, with_rows};
use super::selection::{compatible, resolved, lemma_alias_freedom};
use super::storage::ArchetypeView;
use super::system::System;
use super::world::{applied, fails_on, sweep_fails, swept, tick_fails, ticked};

verus! {

/// Push and read: the row stored under the handle that a push hands out is
/// the row that was pushed, and the rows stored before are untouched.
pub proof fn lemma_push_then_read<V>(archetype: ArchetypeView<V>, instance: Seq<V>)
    requires
        archetype.wf(),
        instance.len() == archetype.shape.len(),
        archetype.len() < u32::MAX,
        archetype.epoch < u64::MAX,
    ensures
        archetype.pushed(instance).wf(),
        archetype.pushed(instance).contains(archetype.next_entity()),
        !archetype.contains(archetype.next_entity()),
        archetype.pushed(instance).row(archetype.next_entity().row_index as int) == instance,
        forall|i: int|
            0 <= i < archetype.len() ==> #[trigger] archetype.pushed(instance).row(i)
                == archetype.row(i),
{
    let after = archetype.pushed(instance);
    assert(after.row(archetype.next_entity().row_index as int) =~= instance);
    assert forall|i: int| 0 <= i < archetype.len() implies #[trigger] after.row(i)
        == archetype.row(i) by {
        assert(after.row(i) =~= archetype.row(i));
    }
}

/// Removal: the archetype stays well formed and loses one row, the removed
/// handle names no row any more, and every other handle but that of the last
/// row still names the row it named, with the same values.
pub proof fn lemma_remove_keeps_the_rest<V>(archetype: ArchetypeView<V>, i: int)
    requires
        archetype.wf(),
        0 <= i < archetype.len(),
        archetype.epoch < u64::MAX,
    ensures
        archetype.removed(i).wf(),
        archetype.removed(i).len() == archetype.len() - 1,
        !archetype.removed(i).contains(archetype.entities[i]),
        i != archetype.len() - 1 ==> archetype.removed(i).contains(archetype.moved_entity(i))
            && archetype.removed(i).row(i) == archetype.row(archetype.len() - 1),
        forall|r: int|
            0 <= r < archetype.len() - 1 && r != i ==> archetype.removed(i).contains(
                #[trigger] archetype.entities[r],
            ) && archetype.removed(i).row(r) == archetype.row(r),
{
    let after = archetype.removed(i);
    let last = archetype.len() - 1;
    assert forall|c: int| 0 <= c < after.columns.len() implies (#[trigger] after.columns[c]).len()
        == after.len() by {
        assert(archetype.columns[c].len() == archetype.len());
    }
    assert forall|r: int| 0 <= r < after.len() implies {
        &&& (#[trigger] after.entities[r]).row_index == r
        &&& after.entities[r].archetype_id == after.id
        &&& after.entities[r].generation < after.epoch
    } by {
        assert(archetype.entities[r].row_index == r);
    }
    assert(archetype.entities[i].generation < archetype.epoch);
    if i != last {
        assert(after.row(i) =~= archetype.row(last));
    }
    assert forall|r: int| 0 <= r < archetype.len() - 1 && r != i implies after.contains(
        #[trigger] archetype.entities[r],
    ) && after.row(r) == archetype.row(r) by {
        assert(archetype.entities[r].row_index == r);
        assert(after.row(r) =~= archetype.row(r));
    }
}

/// Stale handles: a handle that was handed out earlier and names no row now
/// names no row after a push or a removal either, whatever moves into the
/// place it once named.
pub proof fn lemma_stale_handle_stays_stale<V>(
    archetype: ArchetypeView<V>,
    stale: Entity,
    instance: Seq<V>,
    i: int,
)
    requires
        archetype.wf(),
        archetype.len() < u32::MAX,
        archetype.epoch < u64::MAX,
        stale.generation < archetype.epoch,
        !archetype.contains(stale),
    ensures
        !archetype.pushed(instance).contains(stale),
        0 <= i < archetype.len() ==> !archetype.removed(i).contains(stale),
{
    if 0 <= i < archetype.len() {
        let after = archetype.removed(i);
        if after.contains(stale) {
            let at = stale.row_index as int;
            if at == i && i != archetype.len() - 1 {
                assert(after.entities[at] == archetype.moved_entity(i));
            } else {
                assert(after.entities[at] == archetype.entities[at]);
            }
        }
    }
}

/// For each place of `second`, the place of `first` that lists the same type.
pub open spec fn reordering(first: Seq<ComponentType>, second: Seq<ComponentType>) -> Seq<int> {
    Seq::new(second.len(), |j: int| position(first, second[j]))
}

/// The values of `row` in the given order.
pub open spec fn reordered<V>(row: Seq<V>, order: Seq<int>) -> Seq<V> {
    Seq::new(order.len(), |j: int| row[order[j]])
}

/// Order-independence of a requirement: two systems that require the same
/// types in different orders, and whose updates do the same to a row once its
/// values are put in the other's order, leave the same archetype behind.
pub proof fn lemma_order_independence<V>(
    archetype: ArchetypeView<V>,
    first: Seq<ComponentType>,
    second: Seq<ComponentType>,
    first_update: spec_fn(Seq<V>) -> Seq<V>,
    second_update: spec_fn(Seq<V>) -> Seq<V>,
)
    requires
        archetype.wf(),
        first.no_duplicates(),
        second.no_duplicates(),
        first.to_set() == second.to_set(),
        compatible(archetype.shape, first),
        forall|row: Seq<V>|
            row.len() == first.len() ==> (#[trigger] first_update(row)).len() == first.len(),
        forall|row: Seq<V>|
            row.len() == first.len() ==> second_update(reordered(row, reordering(first, second)))
                == reordered(#[trigger] first_update(row), reordering(first, second)),
    ensures
        compatible(archetype.shape, second),
        dispatched(archetype, resolved(archetype.shape, first), first_update) == dispatched(
            archetype,
            resolved(archetype.shape, second),
            second_update,
        ),
{
    let shape = archetype.shape;
    let columns = archetype.columns;
    let n = archetype.len();
    let order = reordering(first, second);
    let one = resolved(shape, first);
    let two = resolved(shape, second);
    first.unique_seq_to_set();
    second.unique_seq_to_set();
    assert(first.len() == second.len());
    assert forall|j: int| 0 <= j < second.len() implies 0 <= #[trigger] order[j] < first.len()
        && first[order[j]] == second[j] by {
        assert(second.to_set().contains(second[j]));
        assert(first.to_set().contains(second[j]));
        assert(first.contains(second[j]));
        lemma_position(first, second[j]);
    }
    assert forall|j: int| 0 <= j < second.len() implies shape.contains(#[trigger] second[j]) by {
        assert(shape.contains(first[order[j]]));
    }
    lemma_alias_freedom(shape, first);
    lemma_alias_freedom(shape, second);
    assert forall|j: int| 0 <= j < second.len() implies #[trigger] two[j] == one[order[j]] by {}
    let rows_one = selected_rows(columns, one, n);
    let rows_two = selected_rows(columns, two, n);
    let after_one = updated_rows(rows_one, first_update);
    let after_two = updated_rows(rows_two, second_update);
    assert forall|i: int| 0 <= i < n implies #[trigger] after_two[i] == reordered(
        after_one[i],
        order,
    ) by {
        assert(rows_two[i] =~= reordered(rows_one[i], order));
        assert(rows_one[i].len() == first.len());
    }
    let left = with_rows(columns, one, after_one);
    let right = with_rows(columns, two, after_two);
    assert forall|c: int| 0 <= c < columns.len() implies #[trigger] left[c] == right[c] by {
        if one.contains(c) {
            let h = one.index_of(c);
            assert(first.to_set().contains(first[h]));
            assert(second.to_set().contains(first[h]));
            let j = choose|j: int| 0 <= j < second.len() && second[j] == first[h];
            lemma_position_of_entry(first, h);
            assert(order[j] == h);
            assert(two[j] == c);
            assert(two.contains(c));
        }
        if two.contains(c) {
            let j = two.index_of(c);
            assert(one[order[j]] == c);
            assert(one.contains(c));
            let h = one.index_of(c);
            assert(order[j] == h);
            assert forall|i: int| 0 <= i < n implies after_two[i][j] == after_one[i][h] by {
                assert(after_two[i] == reordered(after_one[i], order));
            }
            assert(left[c] =~= right[c]);
        }
    }
    assert(left =~= right);
}

/// Whether `system` requires a type that none of the archetypes has.
pub open spec fn unmatched<V, S: System<V>>(system: &S, archetypes: Seq<ArchetypeView<V>>) -> bool {
    exists|missing: ComponentType|
        system.required().contains(missing) && forall|a: int|
            0 <= a < archetypes.len() ==> !(#[trigger] archetypes[a]).shape.contains(missing)
}

/// Skipping: a system that requires a type which no archetype has changes no
/// archetype and fails on none.
pub proof fn lemma_unmatched_system_is_skipped<V, S: System<V>>(
    system: &S,
    archetypes: Seq<ArchetypeView<V>>,
)
    requires
        unmatched(system, archetypes),
    ensures
        swept(system, archetypes) == archetypes,
        !sweep_fails(system, archetypes),
{
    let missing = choose|missing: ComponentType|
        system.required().contains(missing) && forall|a: int|
            0 <= a < archetypes.len() ==> !(#[trigger] archetypes[a]).shape.contains(missing);
    let j = choose|j: int| 0 <= j < system.required().len() && system.required()[j] == missing;
    assert forall|a: int| 0 <= a < archetypes.len() implies !compatible(
        (#[trigger] archetypes[a]).shape,
        system.required(),
    ) by {
        if compatible(archetypes[a].shape, system.required()) {
            assert(archetypes[a].shape.contains(system.required()[j]));
        }
    }
    assert forall|a: int| 0 <= a < archetypes.len() implies applied(system, archetypes[a])
        == #[trigger] archetypes[a] && !fails_on(system, archetypes[a]) by {}
    assert(swept(system, archetypes) =~= archetypes);
}

/// Skipping, for a whole tick: when each registered system requires a type
/// that no archetype has, the tick changes nothing and does not fail.
pub proof fn lemma_tick_without_match<V, S: System<V>>(
    systems: Seq<S>,
    archetypes: Seq<ArchetypeView<V>>,
    count: nat,
)
    requires
        count <= systems.len(),
        forall|s: int| 0 <= s < count ==> unmatched(&#[trigger] systems[s], archetypes),
    ensures
        ticked(systems, archetypes, count) == archetypes,
        !tick_fails(systems, archetypes, count),
    decreases count,
{
    if count > 0 {
        lemma_tick_without_match(systems, archetypes, (count - 1) as nat);
        assert(unmatched(&systems[count - 1], archetypes));
        lemma_unmatched_system_is_skipped(&systems[count - 1], archetypes);
    }
}

} // verus!
