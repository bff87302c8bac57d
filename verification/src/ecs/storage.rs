use vstd::prelude::*;
use super::component::{ComponentType, position, all_distinct, find_position};
use super::entity::Entity;
use super::error::EcsError;
use super::selection::{Selection, compatible, first_missing, resolved};
use super::rows::{grid, reversed, selected_row, with_rows, without_selected};

verus! {

/// The mathematical content of an archetype: its shape, the handles of its
/// rows, and one sequence of values per column.
pub struct ArchetypeView<V> {
    pub id: u64,
    pub shape: Seq<ComponentType>,
    pub entities: Seq<Entity>,
    pub columns: Seq<Seq<V>>,
    pub epoch: int,
}

impl<V> ArchetypeView<V> {
    /// The number of rows.
    pub open spec fn len(self) -> int {
        self.entities.len() as int
    }

    /// The shape holds no type twice, there is one column per type, every
    /// column is as long as the list of handles, and the handle of row `i`
    /// names row `i` of this archetype with a generation that was already
    /// handed out.
    pub open spec fn wf(self) -> bool {
        &&& self.shape.no_duplicates()
        &&& self.columns.len() == self.shape.len()
        &&& forall|c: int| 0 <= c < self.columns.len() ==>
            (#[trigger] self.columns[c]).len() == self.len()
        &&& self.len() <= u32::MAX
        &&& 0 <= self.epoch <= u64::MAX
        &&& forall|i: int|
            0 <= i < self.len() ==> {
                &&& (#[trigger] self.entities[i]).row_index == i
                &&& self.entities[i].archetype_id == self.id
                &&& self.entities[i].generation < self.epoch
            }
    }

    /// Whether `entity` is the handle of a row that is stored now.
    pub open spec fn contains(self, entity: Entity) -> bool {
        entity.row_index < self.len() && self.entities[entity.row_index as int] == entity
    }

    /// The values of row `i`, one per column, in the order of the shape.
    pub open spec fn row(self, i: int) -> Seq<V> {
        Seq::new(self.columns.len(), |c: int| self.columns[c][i])
    }

    /// The handle that the next `push` hands out.
    pub open spec fn next_entity(self) -> Entity {
        Entity {
            row_index: self.len() as u32,
            archetype_id: self.id,
            generation: self.epoch as u64,
        }
    }

    /// The archetype after `row` was appended.
    pub open spec fn pushed(self, row: Seq<V>) -> Self {
        ArchetypeView {
            id: self.id,
            shape: self.shape,
            entities: self.entities.push(self.next_entity()),
            columns: Seq::new(self.columns.len(), |c: int| self.columns[c].push(row[c])),
            epoch: self.epoch + 1,
        }
    }

    /// The handle that the last row gets when it is moved into row `i`.
    pub open spec fn moved_entity(self, i: int) -> Entity {
        Entity { row_index: i as u32, archetype_id: self.id, generation: self.epoch as u64 }
    }

    /// The archetype after row `i` was removed: the last row takes its place
    /// and gets a fresh handle, unless row `i` was the last one itself.
    pub open spec fn removed(self, i: int) -> Self {
        ArchetypeView {
            id: self.id,
            shape: self.shape,
            entities: if i == self.len() - 1 {
                self.entities.drop_last()
            } else {
                self.entities.update(i, self.moved_entity(i)).drop_last()
            },
            columns: Seq::new(
                self.columns.len(),
                |c: int| self.columns[c].update(i, self.columns[c].last()).drop_last(),
            ),
            epoch: if i == self.len() - 1 {
                self.epoch
            } else {
                self.epoch + 1
            },
        }
    }

    /// The archetype with its columns replaced and everything else kept.
    pub open spec fn with_columns(self, columns: Seq<Seq<V>>) -> Self {
        ArchetypeView {
            id: self.id,
            shape: self.shape,
            entities: self.entities,
            columns,
            epoch: self.epoch,
        }
    }
}

/// A column-oriented table of all entities that share one shape.
///
/// Column `c` stores the component of type `shape[c]` of every row; row `i` of
/// every column and handle `i` belong to the same entity.
pub struct ArchetypeStorage<V> {
    id: u64,
    shape: Vec<ComponentType>,
    entity_list: Vec<Entity>,
    components: Vec<Vec<V>>,
    next_generation: u64,
}

impl<V> View for ArchetypeStorage<V> {
    type V = ArchetypeView<V>;

    closed spec fn view(&self) -> ArchetypeView<V> {
        ArchetypeView {
            id: self.id,
            shape: self.shape@,
            entities: self.entity_list@,
            columns: Seq::new(self.components@.len(), |c: int| self.components@[c]@),
            epoch: self.next_generation as int,
        }
    }
}

impl<V> ArchetypeStorage<V> {
    /// Creates an empty archetype with the given identity and shape.
    ///
    /// A shape that names a type twice is refused: its two columns could not
    /// be told apart by type.
    pub fn new(id: u64, shape: Vec<ComponentType>) -> (result: Result<Self, EcsError>)
        ensures
            shape@.no_duplicates() ==> (result matches Ok(archetype) && archetype@.wf()
                && archetype@ == (ArchetypeView::<V> {
                id,
                shape: shape@,
                entities: Seq::empty(),
                columns: Seq::new(shape@.len(), |c: int| Seq::empty()),
                epoch: 0,
            })),
            !shape@.no_duplicates() ==> (result matches Err(e) && e == EcsError::AliasConflict),
    {
        if !all_distinct(&shape) {
            return Err(EcsError::AliasConflict);
        }
        let mut components: Vec<Vec<V>> = Vec::new();
        let mut c: usize = 0;
        while c < shape.len()
            invariant
                c <= shape@.len(),
                components@.len() == c,
                forall|h: int| 0 <= h < c ==> (#[trigger] components@[h])@ == Seq::<V>::empty(),
            decreases shape@.len() - c,
        {
            components.push(Vec::new());
            c += 1;
        }
        let archetype = ArchetypeStorage {
            id,
            shape,
            entity_list: Vec::new(),
            components,
            next_generation: 0,
        };
        proof {
            assert(archetype@.columns =~= Seq::new(shape@.len(), |c: int| Seq::<V>::empty()));
        }
        Ok(archetype)
    }

    /// The identity that this archetype stamps on its handles.
    pub fn id(&self) -> (id: u64)
        ensures
            id == self@.id,
    {
        self.id
    }

    /// The component types of the columns, in column order.
    pub fn shape(&self) -> (shape: &Vec<ComponentType>)
        ensures
            shape@ == self@.shape,
    {
        &self.shape
    }

    /// The number of rows.
    pub fn len(&self) -> (n: usize)
        ensures
            n == self@.len(),
    {
        self.entity_list.len()
    }

    /// Whether the archetype holds no row.
    pub fn is_empty(&self) -> (empty: bool)
        ensures
            empty <==> self@.len() == 0,
    {
        self.entity_list.len() == 0
    }

    /// Whether `entity` is the handle of a row that is stored now.
    pub fn contains(&self, entity: Entity) -> (held: bool)
        ensures
            held <==> self@.contains(entity),
    {
        let i = entity.row_index as usize;
        i < self.entity_list.len() && self.entity_list[i] == entity
    }

    /// Appends one row, one value per column in the order of the shape, and
    /// hands out its handle.
    pub fn push(&mut self, instance: Vec<V>) -> (entity: Entity)
        requires
            old(self)@.wf(),
            instance@.len() == old(self)@.shape.len(),
            old(self)@.len() < u32::MAX,
            old(self)@.epoch < u64::MAX,
        ensures
            final(self)@.wf(),
            final(self)@ == old(self)@.pushed(instance@),
            entity == old(self)@.next_entity(),
            final(self)@.contains(entity),
            final(self)@.row(entity.row_index as int) == instance@,
    {
        let mut instance = instance;
        let ghost row = instance@;
        let width = self.components.len();
        let mut c: usize = width;
        while c > 0
            invariant
                c <= width,
                width == row.len(),
                instance@ == row.take(c as int),
                self.components@.len() == width,
                self.id == old(self).id,
                self.shape == old(self).shape,
                self.entity_list == old(self).entity_list,
                self.next_generation == old(self).next_generation,
                old(self).components@.len() == width,
                forall|h: int|
                    0 <= h < c ==> (#[trigger] self.components@[h]) == old(self).components@[h],
                forall|h: int|
                    c <= h < width ==>
                        (#[trigger] self.components@[h])@ ==
                            old(self).components@[h]@.push(row[h]),
            decreases c,
        {
            c -= 1;
            let value = instance.pop().unwrap();
            self.components[c].push(value);
        }
        let entity = Entity::new(self.entity_list.len() as u32, self.id, self.next_generation);
        self.entity_list.push(entity);
        self.next_generation += 1;
        proof {
            assert(self@.columns =~= old(self)@.pushed(row).columns);
            assert(self@.row(entity.row_index as int) =~= row);
        }
        entity
    }

    /// Removes the row that `entity` names and returns its values.
    ///
    /// The last row is moved into the vacated place. Its old handle stops
    /// being valid and its new one is returned, so that the caller can update
    /// whatever index it keeps. A handle that names no stored row, because it
    /// belongs elsewhere or its row was removed or moved, is refused and
    /// nothing changes.
    pub fn remove(&mut self, entity: Entity) -> (result: Result<(Vec<V>, Option<Entity>), EcsError>)
        requires
            old(self)@.wf(),
            old(self)@.epoch < u64::MAX,
        ensures
            final(self)@.wf(),
            !old(self)@.contains(entity) ==> final(self)@ == old(self)@ && (result matches Err(e)
                && e == EcsError::UnknownEntity),
            old(self)@.contains(entity) ==> (result matches Ok((row, moved)) && {
                &&& row@ == old(self)@.row(entity.row_index as int)
                &&& final(self)@ == old(self)@.removed(entity.row_index as int)
                &&& final(self)@.len() == old(self)@.len() - 1
                &&& !final(self)@.contains(entity)
                &&& entity.row_index == old(self)@.len() - 1 ==> moved.is_none()
                &&& entity.row_index != old(self)@.len() - 1 ==> moved == Some(
                    old(self)@.moved_entity(entity.row_index as int),
                ) && final(self)@.contains(moved.unwrap())
            }),
    {
        if !self.contains(entity) {
            return Err(EcsError::UnknownEntity);
        }
        let at = entity.row_index as usize;
        let last = self.entity_list.len() - 1;
        let width = self.components.len();
        let mut row: Vec<V> = Vec::new();
        let mut c: usize = 0;
        while c < width
            invariant
                c <= width,
                at <= last,
                last + 1 == old(self)@.len(),
                old(self)@.wf(),
                self.components@.len() == width,
                old(self).components@.len() == width,
                self.id == old(self).id,
                self.shape == old(self).shape,
                self.entity_list == old(self).entity_list,
                self.next_generation == old(self).next_generation,
                row@.len() == c,
                forall|h: int| 0 <= h < c ==> #[trigger] row@[h] == old(self)@.columns[h][at as int],
                forall|h: int|
                    0 <= h < c ==> (#[trigger] self.components@[h])@
                        == old(self)@.columns[h].update(
                        at as int,
                        old(self)@.columns[h].last(),
                    ).drop_last(),
                forall|h: int|
                    c <= h < width ==> (#[trigger] self.components@[h]) == old(self).components@[h],
            decreases width - c,
        {
            assert(old(self)@.columns[c as int].len() == old(self)@.len());
            let value = self.components[c].swap_remove(at);
            row.push(value);
            c += 1;
        }
        self.entity_list.swap_remove(at);
        let moved = if at != last {
            let mover = Entity::new(entity.row_index, self.id, self.next_generation);
            self.entity_list[at] = mover;
            self.next_generation += 1;
            Some(mover)
        } else {
            None
        };
        proof {
            let after = old(self)@.removed(at as int);
            assert(self@.columns =~= after.columns);
            assert(self@.entities =~= after.entities);
            assert(row@ =~= old(self)@.row(at as int));
        }
        Ok((row, moved))
    }

    /// Reads the row that `entity` names: one reference per column, in the
    /// order of the shape.
    pub fn row(&self, entity: Entity) -> (result: Result<Vec<&V>, EcsError>)
        requires
            self@.wf(),
        ensures
            !self@.contains(entity) ==> (result matches Err(e) && e == EcsError::UnknownEntity),
            self@.contains(entity) ==> (result matches Ok(row) && {
                &&& row@.len() == self@.shape.len()
                &&& forall|c: int|
                    0 <= c < row@.len() ==> *(#[trigger] row@[c]) == self@.row(
                        entity.row_index as int,
                    )[c]
            }),
    {
        if !self.contains(entity) {
            return Err(EcsError::UnknownEntity);
        }
        let at = entity.row_index as usize;
        let mut row: Vec<&V> = Vec::new();
        let mut c: usize = 0;
        while c < self.components.len()
            invariant
                c <= self.components@.len(),
                self@.wf(),
                at < self@.len(),
                row@.len() == c,
                forall|h: int| 0 <= h < c ==> *(#[trigger] row@[h]) == self@.columns[h][at as int],
            decreases self.components@.len() - c,
        {
            assert(self@.columns[c as int].len() == self@.len());
            row.push(&self.components[c][at]);
            c += 1;
        }
        Ok(row)
    }

    /// Hands out read access to the columns that store the types of `subset`,
    /// in the subset's order.
    ///
    /// The earliest type of `subset` that is no column of this archetype is
    /// reported as not present. Otherwise a subset that names a type twice is
    /// an alias conflict.
    pub fn get_components(&self, subset: &Vec<ComponentType>) -> (result: Result<
        Vec<&Vec<V>>,
        EcsError,
    >)
        requires
            self@.wf(),
        ensures
            compatible(self@.shape, subset@) && subset@.no_duplicates() ==> (result matches Ok(
                columns,
            ) && {
                &&& columns@.len() == subset@.len()
                &&& forall|j: int|
                    0 <= j < subset@.len() ==> (#[trigger] columns@[j])@
                        == self@.columns[position(self@.shape, subset@[j])]
            }),
            compatible(self@.shape, subset@) && !subset@.no_duplicates() ==> (result matches Err(e)
                && e == EcsError::AliasConflict),
            !compatible(self@.shape, subset@) ==> exists|j: int|
                first_missing(self@.shape, subset@, j) && (result matches Err(e) && e
                    == EcsError::ComponentNotPresent(subset@[j])),
    {
        let selection = match Selection::resolve(&self.shape, subset) {
            Ok(selection) => selection,
            Err(e) => {
                return Err(e);
            },
        };
        let mut columns: Vec<&Vec<V>> = Vec::new();
        let mut j: usize = 0;
        assert(selection.columns().len() == subset@.len());
        while j < selection.indices.len()
            invariant
                j <= selection.indices@.len(),
                selection.indices@.len() == subset@.len(),
                selection.columns() == resolved(self@.shape, subset@),
                selection.within(self@.shape.len() as int),
                self@.wf(),
                columns@.len() == j,
                forall|h: int|
                    0 <= h < j ==> (#[trigger] columns@[h])@ == self@.columns[position(
                        self@.shape,
                        subset@[h],
                    )],
            decreases selection.indices@.len() - j,
        {
            assert(selection.columns()[j as int] == selection.indices@[j as int]);
            assert(selection.columns()[j as int] == position(self@.shape, subset@[j as int]));
            columns.push(&self.components[selection.indices[j]]);
            j += 1;
        }
        Ok(columns)
    }

    /// Hands out write access to the component of type `ty` in the row that
    /// `entity` names. Whatever is written there is the only change.
    pub fn component_mut(&mut self, entity: Entity, ty: ComponentType) -> (result: Result<
        &mut V,
        EcsError,
    >)
        requires
            old(self)@.wf(),
        ensures
            final(self)@.wf(),
            final(self)@.id == old(self)@.id,
            final(self)@.shape == old(self)@.shape,
            final(self)@.entities == old(self)@.entities,
            final(self)@.epoch == old(self)@.epoch,
            final(self)@.columns.len() == old(self)@.columns.len(),
            !old(self)@.contains(entity) ==> final(self)@ == old(self)@ && (result matches Err(e)
                && e == EcsError::UnknownEntity),
            old(self)@.contains(entity) && !old(self)@.shape.contains(ty) ==>
                final(self)@ == old(self)@ && (result matches Err(e)
                && e == EcsError::ComponentNotPresent(ty)),
            old(self)@.contains(entity) && old(self)@.shape.contains(ty) ==> (result matches Ok(
                cell,
            ) && {
                let c = position(old(self)@.shape, ty);
                let i = entity.row_index as int;
                &&& *cell == old(self)@.columns[c][i]
                &&& final(self)@.columns[c] == old(self)@.columns[c].update(i, *final(cell))
                &&& forall|h: int|
                    0 <= h < old(self)@.columns.len() && h != c ==>
                        #[trigger] final(self)@.columns[h] == old(self)@.columns[h]
            }),
    {
        if !self.contains(entity) {
            return Err(EcsError::UnknownEntity);
        }
        let at = entity.row_index as usize;
        match find_position(&self.shape, ty) {
            None => Err(EcsError::ComponentNotPresent(ty)),
            Some(c) => {
                proof {
                    assert forall|h: int| 0 <= h < self.components@.len() implies (
                    #[trigger] self.components@[h])@.len() == self.entity_list@.len() by {
                        assert(self@.columns[h].len() == self@.len());
                    }
                }
                let cell = &mut self.components[c][at];
                Ok(cell)
            },
        }
    }

    /// Moves the values of the selected columns out, row by row.
    ///
    /// Afterwards the selected columns are empty and the others are as they
    /// were; `restore_rows` puts rows back.
    pub(crate) fn take_rows(&mut self, selection: &Selection) -> (rows: Vec<Vec<V>>)
        requires
            old(self)@.wf(),
            selection.within(old(self)@.shape.len() as int),
            selection.alias_free(),
        ensures
            rows@.len() == old(self)@.len(),
            forall|i: int|
                0 <= i < rows@.len() ==> (#[trigger] rows@[i])@ == selected_row(
                    old(self)@.columns,
                    selection.columns(),
                    i,
                ),
            final(self)@ == old(self)@.with_columns(
                without_selected(old(self)@.columns, selection.columns()),
            ),
    {
        let n = self.entity_list.len();
        let k = selection.indices.len();
        let ghost selected = selection.columns();
        let ghost before = old(self)@.columns;
        let mut backwards: Vec<Vec<V>> = Vec::new();
        let mut t: usize = 0;
        while t < n
            invariant
                t <= n,
                n == old(self)@.len(),
                k == selected.len(),
                selected == selection.columns(),
                before == old(self)@.columns,
                old(self)@.wf(),
                selection.within(before.len() as int),
                selection.alias_free(),
                self.id == old(self).id,
                self.shape == old(self).shape,
                self.entity_list == old(self).entity_list,
                self.next_generation == old(self).next_generation,
                self.components@.len() == before.len(),
                forall|h: int|
                    0 <= h < k ==>
                        (#[trigger] self.components@[selected[h]])@ == before[selected[h]].take(
                        n - t,
                    ),
                forall|c: int|
                    0 <= c < before.len() && !selected.contains(c) ==> (
                    #[trigger] self.components@[c])@ == before[c],
                backwards@.len() == t,
                forall|u: int|
                    0 <= u < t ==> (#[trigger] backwards@[u])@ == selected_row(
                        before,
                        selected,
                        n - 1 - u,
                    ),
            decreases n - t,
        {
            let mut row: Vec<V> = Vec::new();
            let mut j: usize = 0;
            while j < k
                invariant
                    j <= k,
                    t < n,
                    n == old(self)@.len(),
                    k == selected.len(),
                    k == selection.indices@.len(),
                    selected == selection.columns(),
                    before == old(self)@.columns,
                    old(self)@.wf(),
                    selection.within(before.len() as int),
                    selection.alias_free(),
                    self.id == old(self).id,
                    self.shape == old(self).shape,
                    self.entity_list == old(self).entity_list,
                    self.next_generation == old(self).next_generation,
                    self.components@.len() == before.len(),
                    forall|h: int|
                        0 <= h < j ==> (#[trigger] self.components@[selected[h]])@
                            == before[selected[h]].take(n - t - 1),
                    forall|h: int|
                        j <= h < k ==> (#[trigger] self.components@[selected[h]])@
                            == before[selected[h]].take(n - t),
                    forall|c: int|
                        0 <= c < before.len() && !selected.contains(c) ==> (
                        #[trigger] self.components@[c])@ == before[c],
                    row@.len() == j,
                    forall|h: int| 0 <= h < j ==> #[trigger] row@[h] == before[selected[h]][n - 1 - t],
                decreases k - j,
            {
                let column = selection.indices[j];
                let ghost earlier = self.components@;
                proof {
                    assert(selected[j as int] == column);
                    assert(0 <= selected[j as int] < before.len());
                    assert(before[column as int].len() == n);
                    assert(self.components@[selected[j as int]]@ == before[selected[j as int]].take(
                        n - t,
                    ));
                }
                let value = self.components[column].pop().unwrap();
                row.push(value);
                proof {
                    assert(self.components@[column as int]@ =~= before[column as int].take(
                        n - t - 1,
                    ));
                    assert forall|h: int| 0 <= h < j + 1 implies (
                    #[trigger] self.components@[selected[h]])@ == before[selected[h]].take(
                        n - t - 1,
                    ) by {
                        if h < j {
                            assert(selected[h] != selected[j as int]);
                            assert(self.components@[selected[h]] == earlier[selected[h]]);
                        }
                    }
                    assert forall|h: int| j + 1 <= h < k implies (
                    #[trigger] self.components@[selected[h]])@ == before[selected[h]].take(
                        n - t,
                    ) by {
                        assert(selected[h] != selected[j as int]);
                        assert(self.components@[selected[h]] == earlier[selected[h]]);
                    }
                    assert forall|c: int|
                        0 <= c < before.len() && !selected.contains(c) implies (
                    #[trigger] self.components@[c])@ == before[c] by {
                        assert(selected.contains(selected[j as int]));
                        assert(self.components@[c] == earlier[c]);
                    }
                }
                j += 1;
            }
            proof {
                assert(row@ =~= selected_row(before, selected, n - 1 - t));
            }
            backwards.push(row);
            t += 1;
        }
        let rows = reversed(backwards);
        proof {
            let emptied = without_selected(before, selected);
            assert forall|c: int| 0 <= c < before.len() implies self@.columns[c] == emptied[c] by {
                if selected.contains(c) {
                    let h = choose|h: int| 0 <= h < selected.len() && selected[h] == c;
                    assert(self.components@[selected[h]]@ == before[selected[h]].take(0));
                    assert(self@.columns[c] =~= Seq::<V>::empty());
                }
            }
            assert(self@.columns =~= emptied);
        }
        rows
    }

    /// Fills the selected columns, which must be empty, from `rows`: the
    /// column selected at place `j` takes the `j`-th value of each row, in row
    /// order.
    pub(crate) fn restore_rows(&mut self, selection: &Selection, rows: Vec<Vec<V>>)
        requires
            selection.within(old(self)@.columns.len() as int),
            selection.alias_free(),
            forall|j: int|
                0 <= j < selection.columns().len() ==>
                    (#[trigger] old(self)@.columns[selection.columns()[j]]).len() == 0,
            forall|i: int|
                0 <= i < rows@.len() ==> (#[trigger] rows@[i])@.len() == selection.columns().len(),
        ensures
            final(self)@ == old(self)@.with_columns(
                with_rows(old(self)@.columns, selection.columns(), grid(rows@)),
            ),
    {
        let n = rows.len();
        let k = selection.indices.len();
        let ghost selected = selection.columns();
        let ghost before = old(self)@.columns;
        let ghost filling = grid(rows@);
        let mut backwards = reversed(rows);
        let mut i: usize = 0;
        proof {
            assert forall|h: int| 0 <= h < k implies (#[trigger] self.components@[selected[h]])@
                == Seq::new(0 as nat, |r: int| filling[r][h]) by {
                assert(self@.columns[selection.columns()[h]].len() == 0);
                assert(self.components@[selected[h]]@ =~= Seq::new(
                    0 as nat,
                    |r: int| filling[r][h],
                ));
            }
        }
        while i < n
            invariant
                i <= n,
                n == filling.len(),
                k == selected.len(),
                k == selection.indices@.len(),
                selected == selection.columns(),
                before == old(self)@.columns,
                selection.within(before.len() as int),
                selection.alias_free(),
                forall|r: int| 0 <= r < n ==> (#[trigger] filling[r]).len() == k,
                self.id == old(self).id,
                self.shape == old(self).shape,
                self.entity_list == old(self).entity_list,
                self.next_generation == old(self).next_generation,
                self.components@.len() == before.len(),
                backwards@.len() == n - i,
                forall|u: int| 0 <= u < n - i ==> (#[trigger] backwards@[u])@ == filling[n - 1 - u],
                forall|h: int|
                    0 <= h < k ==> (#[trigger] self.components@[selected[h]])@ == Seq::new(
                        i as nat,
                        |r: int| filling[r][h],
                    ),
                forall|c: int|
                    0 <= c < before.len() && !selected.contains(c) ==> (
                    #[trigger] self.components@[c])@ == before[c],
            decreases n - i,
        {
            let mut row = backwards.pop().unwrap();
            assert(row@ == filling[i as int]);
            let mut j: usize = k;
            while j > 0
                invariant
                    j <= k,
                    i < n,
                    n == filling.len(),
                    k == selected.len(),
                    k == selection.indices@.len(),
                    selected == selection.columns(),
                    selection.within(before.len() as int),
                    selection.alias_free(),
                    filling[i as int].len() == k,
                    row@ == filling[i as int].take(j as int),
                    self.id == old(self).id,
                    self.shape == old(self).shape,
                    self.entity_list == old(self).entity_list,
                    self.next_generation == old(self).next_generation,
                    self.components@.len() == before.len(),
                    forall|h: int|
                        0 <= h < j ==> (#[trigger] self.components@[selected[h]])@ == Seq::new(
                            i as nat,
                            |r: int| filling[r][h],
                        ),
                    forall|h: int|
                        j <= h < k ==> (#[trigger] self.components@[selected[h]])@ == Seq::new(
                            (i + 1) as nat,
                            |r: int| filling[r][h],
                        ),
                    forall|c: int|
                        0 <= c < before.len() && !selected.contains(c) ==> (
                        #[trigger] self.components@[c])@ == before[c],
                decreases j,
            {
                j -= 1;
                let column = selection.indices[j];
                let ghost earlier = self.components@;
                proof {
                    assert(selected[j as int] == column);
                    assert(0 <= selected[j as int] < before.len());
                    assert(earlier[selected[j as int]]@ == Seq::new(
                        i as nat,
                        |r: int| filling[r][j as int],
                    ));
                }
                let value = row.pop().unwrap();
                self.components[column].push(value);
                proof {
                    assert(self.components@[column as int]@ =~= Seq::new(
                        (i + 1) as nat,
                        |r: int| filling[r][j as int],
                    ));
                    assert forall|h: int| 0 <= h < j implies (
                    #[trigger] self.components@[selected[h]])@ == Seq::new(
                        i as nat,
                        |r: int| filling[r][h],
                    ) by {
                        assert(selected[h] != selected[j as int]);
                        assert(self.components@[selected[h]] == earlier[selected[h]]);
                    }
                    assert forall|h: int| j <= h < k implies (
                    #[trigger] self.components@[selected[h]])@ == Seq::new(
                        (i + 1) as nat,
                        |r: int| filling[r][h],
                    ) by {
                        if h > j {
                            assert(selected[h] != selected[j as int]);
                            assert(self.components@[selected[h]] == earlier[selected[h]]);
                        }
                    }
                    assert forall|c: int|
                        0 <= c < before.len() && !selected.contains(c) implies (
                    #[trigger] self.components@[c])@ == before[c] by {
                        assert(selected.contains(selected[j as int]));
                        assert(self.components@[c] == earlier[c]);
                    }
                }
            }
            i += 1;
        }
        proof {
            let filled = with_rows(before, selected, filling);
            assert forall|c: int| 0 <= c < before.len() implies self@.columns[c] == filled[c] by {
                if selected.contains(c) {
                    let h = selected.index_of(c);
                    assert(self.components@[selected[h]]@ == Seq::new(
                        n as nat,
                        |r: int| filling[r][h],
                    ));
                    assert(self@.columns[c] =~= filled[c]);
                }
            }
            assert(self@.columns =~= filled);
        }
    }
}

} // verus!
