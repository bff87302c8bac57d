use vstd::prelude::*;
use super::component::{ComponentType, all_distinct};
use super::dispatch::{dispatch_outcome, dispatched, some_row_fails, update_of};
use super::entity::Entity;
use super::error::EcsError;
use super::selection::{Selection, compatible, resolved};
use super::storage::{ArchetypeStorage, ArchetypeView};
use super::system::System;

verus! {

/// One archetype after `system` was applied to it: every row updated where the
/// archetype has all the required types, nothing changed where it lacks one.
pub open spec fn applied<V, S: System<V>>(system: &S, archetype: ArchetypeView<V>) -> ArchetypeView<
    V,
> {
    if compatible(archetype.shape, system.required()) {
        dispatched(archetype, resolved(archetype.shape, system.required()), update_of(system))
    } else {
        archetype
    }
}

/// Whether `system` is applied to `archetype` and fails on one of its rows.
pub open spec fn fails_on<V, S: System<V>>(system: &S, archetype: ArchetypeView<V>) -> bool {
    compatible(archetype.shape, system.required()) && some_row_fails(
        system,
        resolved(archetype.shape, system.required()),
        archetype,
    )
}

/// All archetypes after `system` was applied to each of them.
pub open spec fn swept<V, S: System<V>>(system: &S, archetypes: Seq<ArchetypeView<V>>) -> Seq<
    ArchetypeView<V>,
> {
    Seq::new(archetypes.len(), |a: int| applied(system, archetypes[a]))
}

/// Whether `system` fails on a row of one of the archetypes.
pub open spec fn sweep_fails<V, S: System<V>>(system: &S, archetypes: Seq<ArchetypeView<V>>) -> bool {
    exists|a: int| 0 <= a < archetypes.len() && fails_on(system, #[trigger] archetypes[a])
}

/// All archetypes after the first `count` systems were applied, one system
/// after the other, each to all archetypes.
pub open spec fn ticked<V, S: System<V>>(
    systems: Seq<S>,
    archetypes: Seq<ArchetypeView<V>>,
    count: nat,
) -> Seq<ArchetypeView<V>>
    decreases count,
{
    if count == 0 {
        archetypes
    } else {
        swept(&systems[count - 1], ticked(systems, archetypes, (count - 1) as nat))
    }
}

/// Whether one of the first `count` systems fails on a row, given that those
/// before it ran to the end.
pub open spec fn tick_fails<V, S: System<V>>(
    systems: Seq<S>,
    archetypes: Seq<ArchetypeView<V>>,
    count: nat,
) -> bool
    decreases count,
{
    if count == 0 {
        false
    } else {
        tick_fails(systems, archetypes, (count - 1) as nat) || sweep_fails(
            &systems[count - 1],
            ticked(systems, archetypes, (count - 1) as nat),
        )
    }
}

/// Whether a sweep of `system` over `before` stopped at archetype `a` with the
/// failure `e`: the archetypes before `a` are swept and none of their rows
/// fails, archetype `a` is left as a failed dispatch leaves it, and those
/// behind it are untouched.
pub open spec fn stopped_at<V, S: System<V>>(
    system: &S,
    before: Seq<ArchetypeView<V>>,
    after: Seq<ArchetypeView<V>>,
    e: EcsError,
    a: int,
) -> bool {
    &&& 0 <= a < before.len()
    &&& after.len() == before.len()
    &&& forall|h: int| 0 <= h < a ==> !fails_on(system, #[trigger] before[h])
    &&& forall|h: int| 0 <= h < a ==> #[trigger] after[h] == applied(system, before[h])
    &&& compatible(before[a].shape, system.required())
    &&& dispatch_outcome(
        system,
        resolved(before[a].shape, system.required()),
        before[a],
        after[a],
        Err(e),
    )
    &&& forall|h: int| a < h < before.len() ==> #[trigger] after[h] == before[h]
}

/// Whether a sweep of `system` over `before` stopped with the failure `e` and
/// left `after` behind.
pub open spec fn sweep_stopped<V, S: System<V>>(
    system: &S,
    before: Seq<ArchetypeView<V>>,
    after: Seq<ArchetypeView<V>>,
    e: EcsError,
) -> bool {
    exists|a: int| stopped_at(system, before, after, e, a)
}

/// Whether a tick over `before` stopped with the failure `e` and left `after`
/// behind: some system is the first to fail, those before it ran to the end,
/// and its sweep stopped with `e`.
pub open spec fn tick_stopped<V, S: System<V>>(
    systems: Seq<S>,
    before: Seq<ArchetypeView<V>>,
    after: Seq<ArchetypeView<V>>,
    e: EcsError,
) -> bool {
    exists|s: int|
        0 <= s < systems.len() && !tick_fails(systems, before, s as nat) && sweep_stopped(
            &#[trigger] systems[s],
            ticked(systems, before, s as nat),
            after,
            e,
        )
}

/// The mathematical content of a world: its archetypes and its systems, each
/// in the order in which they were added.
pub struct WorldView<V, S> {
    pub archetypes: Seq<ArchetypeView<V>>,
    pub systems: Seq<S>,
}

impl<V, S: System<V>> WorldView<V, S> {
    /// Every archetype is well formed and carries its index as its identity,
    /// and no system requires a type twice.
    pub open spec fn wf(self) -> bool {
        &&& forall|a: int|
            0 <= a < self.archetypes.len() ==> (#[trigger] self.archetypes[a]).wf()
                && self.archetypes[a].id == a
        &&& forall|s: int|
            0 <= s < self.systems.len() ==> (#[trigger] self.systems[s]).required().no_duplicates()
    }

    /// The archetypes differ from those of `before` in the contents of their
    /// columns at most, and the systems are the same.
    pub open spec fn same_frame(self, before: Self) -> bool {
        &&& self.systems == before.systems
        &&& self.archetypes.len() == before.archetypes.len()
        &&& forall|a: int|
            0 <= a < self.archetypes.len() ==> #[trigger] self.archetypes[a]
                == before.archetypes[a].with_columns(self.archetypes[a].columns)
    }
}

/// A registry of archetypes of any shapes and of the systems that run on them.
///
/// For every pair of a system and an archetype the world keeps the selection
/// that the system's requirement resolves to, worked out once when the later
/// of the two is added.
pub struct World<V, S> {
    archetypes: Vec<ArchetypeStorage<V>>,
    systems: Vec<S>,
    plan: Vec<Vec<Option<Selection>>>,
}

impl<V, S> View for World<V, S> {
    type V = WorldView<V, S>;

    closed spec fn view(&self) -> WorldView<V, S> {
        WorldView {
            archetypes: Seq::new(self.archetypes@.len(), |a: int| self.archetypes@[a]@),
            systems: self.systems@,
        }
    }
}

impl<V, S: System<V>> World<V, S> {
    /// The kept selections are the ones that the requirements resolve to:
    /// one per system and archetype, absent where the archetype lacks a
    /// required type.
    pub closed spec fn planned(&self) -> bool {
        &&& self.plan@.len() == self.systems@.len()
        &&& forall|s: int|
            0 <= s < self.plan@.len() ==> (#[trigger] self.plan@[s])@.len() == self.archetypes@.len()
        &&& forall|s: int, a: int|
            0 <= s < self.plan@.len() && 0 <= a < self.archetypes@.len() ==> match (
            #[trigger] self.plan@[s]@[a]) {
                Some(selection) => selection.selects(
                    self.archetypes@[a]@.shape,
                    self.systems@[s].required(),
                ),
                None => !compatible(self.archetypes@[a]@.shape, self.systems@[s].required()),
            }
    }

    /// The world's invariant.
    pub open spec fn wf(&self) -> bool {
        self@.wf() && self.planned()
    }

    /// A world without archetypes and systems.
    pub fn new() -> (world: Self)
        ensures
            world.wf(),
            world@.archetypes.len() == 0,
            world@.systems.len() == 0,
    {
        World { archetypes: Vec::new(), systems: Vec::new(), plan: Vec::new() }
    }

    /// The number of archetypes.
    pub fn archetype_count(&self) -> (n: usize)
        ensures
            n == self@.archetypes.len(),
    {
        self.archetypes.len()
    }

    /// The number of registered systems.
    pub fn system_count(&self) -> (n: usize)
        ensures
            n == self@.systems.len(),
    {
        self.systems.len()
    }

    /// Read access to the archetype with the given index.
    pub fn archetype(&self, index: usize) -> (archetype: &ArchetypeStorage<V>)
        requires
            index < self@.archetypes.len(),
        ensures
            archetype@ == self@.archetypes[index as int],
    {
        &self.archetypes[index]
    }

    /// Adds an empty archetype of the given shape and returns its index, which
    /// is also the identity on its handles. A shape that names a type twice is
    /// refused and nothing changes.
    pub fn add_archetype(&mut self, shape: Vec<ComponentType>) -> (result: Result<usize, EcsError>)
        requires
            old(self).wf(),
        ensures
            final(self).wf(),
            final(self)@.systems == old(self)@.systems,
            !shape@.no_duplicates() ==> final(self)@ == old(self)@ && result == Err::<
                usize,
                EcsError,
            >(EcsError::AliasConflict),
            shape@.no_duplicates() ==> result == Ok::<usize, EcsError>(
                old(self)@.archetypes.len() as usize,
            ) && final(self)@.archetypes == old(self)@.archetypes.push(
                ArchetypeView {
                    id: old(self)@.archetypes.len() as u64,
                    shape: shape@,
                    entities: Seq::empty(),
                    columns: Seq::new(shape@.len(), |c: int| Seq::empty()),
                    epoch: 0,
                },
            ),
    {
        let index = self.archetypes.len();
        let archetype = match ArchetypeStorage::new(index as u64, shape) {
            Ok(archetype) => archetype,
            Err(e) => {
                return Err(e);
            },
        };
        let ghost shape_of = archetype@.shape;
        let mut s: usize = 0;
        while s < self.systems.len()
            invariant
                s <= self.systems@.len(),
                old(self).wf(),
                self.archetypes == old(self).archetypes,
                self.systems == old(self).systems,
                self.plan@.len() == self.systems@.len(),
                index == self.archetypes@.len(),
                shape_of == archetype@.shape,
                forall|h: int| 0 <= h < s ==>
                    (#[trigger] self.plan@[h])@ ==
                        old(self).plan@[h]@.push(self.plan@[h]@[index as int]),
                forall|h: int|
                    0 <= h < s ==> match (#[trigger] self.plan@[h]@[index as int]) {
                        Some(selection) => selection.selects(shape_of, self.systems@[h].required()),
                        None => !compatible(shape_of, self.systems@[h].required()),
                    },
                forall|h: int| s <= h < self.plan@.len() ==>
                    (#[trigger] self.plan@[h]) == old(self).plan@[h],
            decreases self.systems@.len() - s,
        {
            let requirement = self.systems[s].requirement();
            assert(old(self)@.systems[s as int].required().no_duplicates());
            let entry = match Selection::resolve(archetype.shape(), &requirement) {
                Ok(selection) => Some(selection),
                Err(_) => None,
            };
            let ghost earlier = self.plan@;
            self.plan[s].push(entry);
            assert(forall|h: int| 0 <= h < self.plan@.len() && h != s ==>
                (#[trigger] self.plan@[h]) == earlier[h]);
            assert(self.plan@[s as int]@[index as int] == entry);
            s += 1;
        }
        self.archetypes.push(archetype);
        proof {
            assert(self@.archetypes =~= old(self)@.archetypes.push(archetype@));
            assert forall|s: int| 0 <= s < self@.systems.len() implies (
            #[trigger] self@.systems[s]).required().no_duplicates() by {
                if s < old(self)@.systems.len() {
                    assert(self@.systems[s] == old(self)@.systems[s]);
                    assert(old(self)@.systems[s].required().no_duplicates());
                }
            }
            assert forall|s: int, a: int|
                0 <= s < self.plan@.len() && 0 <= a < self.archetypes@.len() implies match (
            #[trigger] self.plan@[s]@[a]) {
                Some(selection) => selection.selects(
                    self.archetypes@[a]@.shape,
                    self.systems@[s].required(),
                ),
                None => !compatible(self.archetypes@[a]@.shape, self.systems@[s].required()),
            } by {
                if a < index {
                    assert(self.plan@[s]@[a] == old(self).plan@[s]@[a]);
                }
            }
        }
        Ok(index)
    }

    /// Registers a system behind those registered before. A system whose
    /// requirement names a type twice is refused and nothing changes.
    pub fn register_system(&mut self, system: S) -> (result: Result<(), EcsError>)
        requires
            old(self).wf(),
        ensures
            final(self).wf(),
            final(self)@.archetypes == old(self)@.archetypes,
            !system.required().no_duplicates() ==> final(self)@ == old(self)@ && result == Err::<
                (),
                EcsError,
            >(EcsError::AliasConflict),
            system.required().no_duplicates() ==> result is Ok && final(self)@.systems == old(
                self,
            )@.systems.push(system),
    {
        let requirement = system.requirement();
        if !all_distinct(&requirement) {
            return Err(EcsError::AliasConflict);
        }
        let mut row: Vec<Option<Selection>> = Vec::new();
        let mut a: usize = 0;
        while a < self.archetypes.len()
            invariant
                a <= self.archetypes@.len(),
                *self == *old(self),
                old(self).wf(),
                requirement@ == system.required(),
                requirement@.no_duplicates(),
                row@.len() == a,
                forall|h: int|
                    0 <= h < a ==> match (#[trigger] row@[h]) {
                        Some(selection) => selection.selects(
                            self.archetypes@[h]@.shape,
                            system.required(),
                        ),
                        None => !compatible(self.archetypes@[h]@.shape, system.required()),
                    },
            decreases self.archetypes@.len() - a,
        {
            let entry = match Selection::resolve(self.archetypes[a].shape(), &requirement) {
                Ok(selection) => Some(selection),
                Err(_) => None,
            };
            row.push(entry);
            a += 1;
        }
        self.systems.push(system);
        self.plan.push(row);
        proof {
            assert(self@.archetypes =~= old(self)@.archetypes);
            assert forall|s: int| 0 <= s < self@.systems.len() implies (
            #[trigger] self@.systems[s]).required().no_duplicates() by {
                if s < old(self)@.systems.len() {
                    assert(self@.systems[s] == old(self)@.systems[s]);
                    assert(old(self)@.systems[s].required().no_duplicates());
                }
            }
        }
        Ok(())
    }

    /// Appends one row to the archetype with the given index and hands out its
    /// handle.
    pub fn push(&mut self, archetype: usize, instance: Vec<V>) -> (entity: Entity)
        requires
            old(self).wf(),
            archetype < old(self)@.archetypes.len(),
            instance@.len() == old(self)@.archetypes[archetype as int].shape.len(),
            old(self)@.archetypes[archetype as int].len() < u32::MAX,
            old(self)@.archetypes[archetype as int].epoch < u64::MAX,
        ensures
            final(self).wf(),
            final(self)@.systems == old(self)@.systems,
            final(self)@.archetypes == old(self)@.archetypes.update(
                archetype as int,
                old(self)@.archetypes[archetype as int].pushed(instance@),
            ),
            entity == old(self)@.archetypes[archetype as int].next_entity(),
    {
        let ghost earlier = self.archetypes@;
        assert(self@.archetypes[archetype as int].wf());
        let entity = self.archetypes[archetype].push(instance);
        proof {
            assert forall|s: int| 0 <= s < self@.systems.len() implies (
            #[trigger] self@.systems[s]).required().no_duplicates() by {
                if s < old(self)@.systems.len() {
                    assert(self@.systems[s] == old(self)@.systems[s]);
                    assert(old(self)@.systems[s].required().no_duplicates());
                }
            }
            assert(forall|a: int| 0 <= a < earlier.len() && a != archetype ==>
                (#[trigger] self.archetypes@[a]) == earlier[a]);
            assert(self@.archetypes =~= old(self)@.archetypes.update(
                archetype as int,
                old(self)@.archetypes[archetype as int].pushed(instance@),
            ));
            assert forall|a: int| 0 <= a < self@.archetypes.len() implies
                (#[trigger] self@.archetypes[a]).wf() && self@.archetypes[a].id == a by {
                assert(old(self)@.archetypes[a].wf());
            }
            assert forall|a: int| 0 <= a < self.archetypes@.len() implies
                (#[trigger] self.archetypes@[a])@.shape == earlier[a]@.shape by {}
        }
        entity
    }

    /// Removes the row that `entity` names from the archetype that it names,
    /// as `ArchetypeStorage::remove` does. A handle that names no archetype of
    /// this world is unknown.
    pub fn remove(&mut self, entity: Entity) -> (result: Result<(Vec<V>, Option<Entity>), EcsError>)
        requires
            old(self).wf(),
            forall|a: int|
                0 <= a < old(self)@.archetypes.len() ==> (#[trigger] old(self)@.archetypes[a]).epoch
                    < u64::MAX,
        ensures
            final(self).wf(),
            final(self)@.systems == old(self)@.systems,
            !old(self)@.holds(entity) ==> final(self)@ == old(self)@ && (result matches Err(e) && e
                == EcsError::UnknownEntity),
            old(self)@.holds(entity) ==> (result matches Ok((row, moved)) && {
                let before = old(self)@.archetypes[entity.archetype_id as int];
                &&& row@ == before.row(entity.row_index as int)
                &&& final(self)@.archetypes == old(self)@.archetypes.update(
                    entity.archetype_id as int,
                    before.removed(entity.row_index as int),
                )
                &&& entity.row_index == before.len() - 1 ==> moved.is_none()
                &&& entity.row_index != before.len() - 1 ==> moved == Some(
                    before.moved_entity(entity.row_index as int),
                )
            }),
    {
        if entity.archetype_id >= self.archetypes.len() as u64 {
            return Err(EcsError::UnknownEntity);
        }
        let at = entity.archetype_id as usize;
        let ghost earlier = self.archetypes@;
        assert(self@.archetypes[at as int].wf());
        assert(self@.archetypes[at as int].epoch < u64::MAX);
        let result = self.archetypes[at].remove(entity);
        proof {
            assert forall|s: int| 0 <= s < self@.systems.len() implies (
            #[trigger] self@.systems[s]).required().no_duplicates() by {
                if s < old(self)@.systems.len() {
                    assert(self@.systems[s] == old(self)@.systems[s]);
                    assert(old(self)@.systems[s].required().no_duplicates());
                }
            }
            assert(forall|a: int| 0 <= a < earlier.len() && a != at ==>
                (#[trigger] self.archetypes@[a]) == earlier[a]);
            assert forall|a: int| 0 <= a < self@.archetypes.len() implies
                (#[trigger] self@.archetypes[a]).wf() && self@.archetypes[a].id == a by {
                assert(old(self)@.archetypes[a].wf());
            }
            assert forall|a: int| 0 <= a < self.archetypes@.len() implies
                (#[trigger] self.archetypes@[a])@.shape == earlier[a]@.shape by {}
            if old(self)@.holds(entity) {
                assert(self@.archetypes =~= old(self)@.archetypes.update(
                    at as int,
                    old(self)@.archetypes[at as int].removed(entity.row_index as int),
                ));
            } else {
                assert(self@.archetypes =~= old(self)@.archetypes);
            }
        }
        result
    }
}

impl<V, S> WorldView<V, S> {
    /// Whether `entity` is the handle of a row that one of the archetypes
    /// stores now.
    pub open spec fn holds(self, entity: Entity) -> bool {
        entity.archetype_id < self.archetypes.len() &&
            self.archetypes[entity.archetype_id as int].contains(
            entity,
        )
    }
}

/// A failure among the first systems is a failure of the tick.
pub proof fn lemma_tick_fails_later<V, S: System<V>>(
    systems: Seq<S>,
    archetypes: Seq<ArchetypeView<V>>,
    count: nat,
    later: nat,
)
    requires
        count <= later,
        tick_fails(systems, archetypes, count),
    ensures
        tick_fails(systems, archetypes, later),
    decreases later,
{
    if count < later {
        lemma_tick_fails_later(systems, archetypes, count, (later - 1) as nat);
    }
}

impl<V: Send, S: System<V> + Sync> World<V, S> {
    /// Applies the system with index `s` to every archetype that has all the
    /// types it requires, in the order of the archetypes, and stops at the
    /// first failure.
    fn sweep(&mut self, s: usize) -> (result: Result<(), EcsError>)
        requires
            old(self).wf(),
            s < old(self)@.systems.len(),
        ensures
            final(self).wf(),
            final(self)@.same_frame(old(self)@),
            result is Ok <==> !sweep_fails(&old(self)@.systems[s as int], old(self)@.archetypes),
            result is Ok ==> final(self)@.archetypes == swept(
                &old(self)@.systems[s as int],
                old(self)@.archetypes,
            ),
            result matches Err(e) ==> sweep_stopped(
                &old(self)@.systems[s as int],
                old(self)@.archetypes,
                final(self)@.archetypes,
                e,
            ),
    {
        let n = self.archetypes.len();
        let ghost before = old(self)@.archetypes;
        let ghost system = &old(self)@.systems[s as int];
        let mut a: usize = 0;
        proof {
            assert forall|h: int| 0 <= h < n implies (#[trigger] self.archetypes@[h])@.wf() by {
                assert(before[h].wf());
            }
        }
        while a < n
            invariant
                a <= n,
                n == before.len(),
                s < self.systems@.len(),
                old(self).wf(),
                before == old(self)@.archetypes,
                system == &old(self)@.systems[s as int],
                self.systems == old(self).systems,
                self.plan == old(self).plan,
                self.archetypes@.len() == n,
                forall|h: int| 0 <= h < n ==> (#[trigger] self.archetypes@[h])@.wf(),
                forall|h: int|
                    0 <= h < n ==> (#[trigger] self.archetypes@[h])@ == before[h].with_columns(
                        self.archetypes@[h]@.columns,
                    ),
                forall|h: int| 0 <= h < a ==>
                    (#[trigger] self.archetypes@[h])@ == applied(system, before[h]),
                forall|h: int| 0 <= h < a ==> !fails_on(system, #[trigger] before[h]),
                forall|h: int| a <= h < n ==> (#[trigger] self.archetypes@[h])@ == before[h],
            decreases n - a,
        {
            let ghost earlier = self.archetypes@;
            proof {
                assert(self.plan@[s as int]@.len() == n);
                assert(earlier[a as int]@ == before[a as int]);
                assert(before[a as int].wf());
            }
            match &self.plan[s][a] {
                Some(selection) => {
                    assert(selection.selects(before[a as int].shape, system.required()));
                    let outcome = self.archetypes[a].dispatch(selection, &self.systems[s]);
                    proof {
                        assert(forall|h: int|
                            0 <= h < n && h != a ==> (#[trigger] self.archetypes@[h]) == earlier[h]);
                        assert(dispatch_outcome(
                            system,
                            selection.columns(),
                            before[a as int],
                            self.archetypes@[a as int]@,
                            outcome,
                        ));
                    }
                    if outcome.is_err() {
                        proof {
                            assert(fails_on(system, before[a as int]));
                            lemma_frame(self@, old(self)@);
                            assert(selection.columns() == resolved(
                                before[a as int].shape,
                                system.required(),
                            ));
                            assert(stopped_at(
                                system,
                                before,
                                self@.archetypes,
                                outcome->Err_0,
                                a as int,
                            ));
                        }
                        return outcome;
                    }
                },
                None => {
                    assert(!compatible(before[a as int].shape, system.required()));
                },
            }
            a += 1;
        }
        proof {
            assert(self@.archetypes =~= swept(system, before));
            lemma_frame(self@, old(self)@);
        }
        Ok(())
    }

    /// Runs one tick: every system in the order of registration, each applied
    /// to all archetypes that have the types it requires before the next
    /// system begins. A system that no archetype matches does nothing.
    ///
    /// The tick fails as soon as an update fails on a row, with that
    /// failure; the rows updated until then stay updated.
    pub fn tick(&mut self) -> (result: Result<(), EcsError>)
        requires
            old(self).wf(),
        ensures
            final(self).wf(),
            final(self)@.same_frame(old(self)@),
            result is Ok <==> !tick_fails(
                old(self)@.systems,
                old(self)@.archetypes,
                old(self)@.systems.len(),
            ),
            result is Ok ==> final(self)@.archetypes == ticked(
                old(self)@.systems,
                old(self)@.archetypes,
                old(self)@.systems.len(),
            ),
            result matches Err(e) ==> tick_stopped(
                old(self)@.systems,
                old(self)@.archetypes,
                final(self)@.archetypes,
                e,
            ),
    {
        let count = self.systems.len();
        let ghost systems = old(self)@.systems;
        let ghost before = old(self)@.archetypes;
        let mut s: usize = 0;
        proof {
            lemma_frame(self@, old(self)@);
        }
        while s < count
            invariant
                s <= count,
                count == systems.len(),
                systems == old(self)@.systems,
                before == old(self)@.archetypes,
                self.wf(),
                self@.same_frame(old(self)@),
                self@.archetypes == ticked(systems, before, s as nat),
                !tick_fails(systems, before, s as nat),
            decreases count - s,
        {
            let ghost midway = self@;
            let outcome = self.sweep(s);
            proof {
                lemma_frame_chain(self@, midway, old(self)@);
            }
            if outcome.is_err() {
                proof {
                    assert(tick_fails(systems, before, (s + 1) as nat));
                    lemma_tick_fails_later(systems, before, (s + 1) as nat, count as nat);
                    assert(sweep_stopped(
                        &systems[s as int],
                        ticked(systems, before, s as nat),
                        self@.archetypes,
                        outcome->Err_0,
                    ));
                }
                return outcome;
            }
            s += 1;
        }
        Ok(())
    }
}

/// A world whose archetypes each differ from the earlier one in their columns
/// at most is in the same frame.
proof fn lemma_frame<V, S: System<V>>(after: WorldView<V, S>, before: WorldView<V, S>)
    requires
        after.systems == before.systems,
        after.archetypes.len() == before.archetypes.len(),
        forall|a: int|
            0 <= a < after.archetypes.len() ==> #[trigger] after.archetypes[a]
                == before.archetypes[a].with_columns(after.archetypes[a].columns),
    ensures
        after.same_frame(before),
{
}

/// Being in the same frame carries over two steps.
proof fn lemma_frame_chain<V, S: System<V>>(
    after: WorldView<V, S>,
    midway: WorldView<V, S>,
    before: WorldView<V, S>,
)
    requires
        after.same_frame(midway),
        midway.same_frame(before),
    ensures
        after.same_frame(before),
{
    assert forall|a: int| 0 <= a < after.archetypes.len() implies #[trigger] after.archetypes[a]
        == before.archetypes[a].with_columns(after.archetypes[a].columns) by {
        assert(midway.archetypes[a] == before.archetypes[a].with_columns(
            midway.archetypes[a].columns,
        ));
    }
}

} // verus!
