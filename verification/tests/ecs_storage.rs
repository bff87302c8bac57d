use icarus::ecs::component::{all_distinct, find_position, ComponentType};
use icarus::ecs::entity::Entity;
use icarus::ecs::error::EcsError;
use icarus::ecs::selection::Selection;
use icarus::ecs::storage::ArchetypeStorage;

const A: ComponentType = ComponentType(10);
const B: ComponentType = ComponentType(20);
const C: ComponentType = ComponentType(30);
const D: ComponentType = ComponentType(40);

fn three_columns() -> ArchetypeStorage<i64> {
    ArchetypeStorage::new(5, vec![A, B, C]).unwrap()
}

fn owned(row: Vec<&i64>) -> Vec<i64> {
    row.into_iter().copied().collect()
}

#[test]
fn new_archetype_is_empty() {
    let archetype = three_columns();
    assert_eq!(archetype.len(), 0);
    assert!(archetype.is_empty());
    assert_eq!(archetype.id(), 5);
    assert_eq!(archetype.shape(), &vec![A, B, C]);
}

#[test]
fn new_archetype_refuses_a_repeated_type() {
    let result: Result<ArchetypeStorage<i64>, EcsError> = ArchetypeStorage::new(0, vec![A, B, A]);
    assert!(matches!(result, Err(EcsError::AliasConflict)));
}

#[test]
fn archetype_without_columns_counts_rows() {
    let mut archetype: ArchetypeStorage<i64> = ArchetypeStorage::new(0, vec![]).unwrap();
    let first = archetype.push(vec![]);
    let second = archetype.push(vec![]);
    assert_eq!(archetype.len(), 2);
    assert_eq!(owned(archetype.row(second).unwrap()), Vec::<i64>::new());
    assert!(archetype.remove(first).is_ok());
    assert_eq!(archetype.len(), 1);
}

#[test]
fn push_hands_out_consecutive_rows() {
    let mut archetype = three_columns();
    let e0 = archetype.push(vec![1, 2, 3]);
    let e1 = archetype.push(vec![4, 5, 6]);
    assert_eq!(e0, Entity { row_index: 0, archetype_id: 5, generation: 0 });
    assert_eq!(e1, Entity { row_index: 1, archetype_id: 5, generation: 1 });
    assert_eq!(e0, Entity::new(0, 5, 0));
    assert_eq!(archetype.len(), 2);
    assert!(!archetype.is_empty());
    assert!(archetype.contains(e0));
    assert!(archetype.contains(e1));
}

#[test]
fn push_then_read_gives_the_row_back() {
    let mut archetype = three_columns();
    let rows: Vec<Vec<i64>> = vec![vec![1, 2, 3], vec![-4, 5, -6], vec![7, 0, i64::MAX]];
    let mut handles = Vec::new();
    for row in &rows {
        handles.push(archetype.push(row.clone()));
    }
    for (row, handle) in rows.iter().zip(handles.iter()) {
        assert_eq!(&owned(archetype.row(*handle).unwrap()), row);
    }
}

#[test]
fn columns_keep_the_length_of_the_handle_list() {
    let mut archetype = three_columns();
    let mut handles = Vec::new();
    for i in 0..6 {
        handles.push(archetype.push(vec![i, 10 * i, 100 * i]));
        let columns = archetype.get_components(&vec![A, B, C]).unwrap();
        for column in columns {
            assert_eq!(column.len(), archetype.len());
        }
    }
    archetype.remove(handles[2]).unwrap();
    archetype.remove(handles[0]).unwrap();
    let columns = archetype.get_components(&vec![A, B, C]).unwrap();
    assert_eq!(archetype.len(), 4);
    for column in columns {
        assert_eq!(column.len(), 4);
    }
}

#[test]
fn remove_swaps_the_last_row_in() {
    let mut archetype = three_columns();
    let e0 = archetype.push(vec![0, 0, 0]);
    let e1 = archetype.push(vec![1, 10, 100]);
    let e2 = archetype.push(vec![2, 20, 200]);
    let e3 = archetype.push(vec![3, 30, 300]);
    let (row, moved) = archetype.remove(e1).unwrap();
    assert_eq!(row, vec![1, 10, 100]);
    let moved = moved.unwrap();
    assert_eq!(moved.row_index, 1);
    assert_eq!(moved.archetype_id, 5);
    assert_eq!(moved, Entity { row_index: 1, archetype_id: 5, generation: 4 });
    assert_eq!(archetype.len(), 3);
    assert_eq!(owned(archetype.row(moved).unwrap()), vec![3, 30, 300]);
    assert_eq!(owned(archetype.row(e0).unwrap()), vec![0, 0, 0]);
    assert_eq!(owned(archetype.row(e2).unwrap()), vec![2, 20, 200]);
    assert!(!archetype.contains(e1));
    assert!(!archetype.contains(e3));
    assert!(matches!(archetype.row(e3), Err(EcsError::UnknownEntity)));
}

#[test]
fn remove_of_the_last_row_moves_nothing() {
    let mut archetype = three_columns();
    let e0 = archetype.push(vec![0, 0, 0]);
    let e1 = archetype.push(vec![1, 10, 100]);
    let (row, moved) = archetype.remove(e1).unwrap();
    assert_eq!(row, vec![1, 10, 100]);
    assert_eq!(moved, None);
    assert_eq!(archetype.len(), 1);
    assert_eq!(owned(archetype.row(e0).unwrap()), vec![0, 0, 0]);
    let (row, moved) = archetype.remove(e0).unwrap();
    assert_eq!(row, vec![0, 0, 0]);
    assert_eq!(moved, None);
    assert!(archetype.is_empty());
}

#[test]
fn remove_refuses_unknown_handles() {
    let mut archetype = three_columns();
    let e0 = archetype.push(vec![0, 0, 0]);
    let e1 = archetype.push(vec![1, 10, 100]);
    let elsewhere = Entity { row_index: 0, archetype_id: 6, generation: 0 };
    assert_eq!(archetype.remove(elsewhere), Err(EcsError::UnknownEntity));
    let beyond = Entity { row_index: 2, archetype_id: 5, generation: 2 };
    assert_eq!(archetype.remove(beyond), Err(EcsError::UnknownEntity));
    assert_eq!(archetype.len(), 2);
    assert!(archetype.remove(e0).is_ok());
    assert_eq!(archetype.remove(e0), Err(EcsError::UnknownEntity));
    assert_eq!(archetype.remove(e1), Err(EcsError::UnknownEntity));
    assert_eq!(archetype.len(), 1);
}

#[test]
fn stale_handle_does_not_name_the_new_occupant() {
    let mut archetype = three_columns();
    let e0 = archetype.push(vec![0, 0, 0]);
    let _e1 = archetype.push(vec![1, 10, 100]);
    archetype.remove(e0).unwrap();
    let newcomer = archetype.push(vec![9, 9, 9]);
    assert_eq!(newcomer.row_index, 1);
    assert!(!archetype.contains(e0));
    assert!(matches!(archetype.row(e0), Err(EcsError::UnknownEntity)));
    assert_eq!(owned(archetype.row(newcomer).unwrap()), vec![9, 9, 9]);
}

#[test]
fn get_components_follows_the_subset_order() {
    let mut archetype = three_columns();
    archetype.push(vec![1, 2, 3]);
    archetype.push(vec![4, 5, 6]);
    let columns = archetype.get_components(&vec![C, A]).unwrap();
    assert_eq!(columns.len(), 2);
    assert_eq!(columns[0], &vec![3, 6]);
    assert_eq!(columns[1], &vec![1, 4]);
    let none = archetype.get_components(&vec![]).unwrap();
    assert!(none.is_empty());
}

#[test]
fn get_components_reports_the_first_absent_type() {
    let archetype = three_columns();
    assert_eq!(
        archetype.get_components(&vec![A, D, ComponentType(50)]),
        Err(EcsError::ComponentNotPresent(D))
    );
    assert_eq!(
        archetype.get_components(&vec![D, D]),
        Err(EcsError::ComponentNotPresent(D))
    );
}

#[test]
fn get_components_refuses_a_repeated_type() {
    let archetype = three_columns();
    assert_eq!(archetype.get_components(&vec![B, A, B]), Err(EcsError::AliasConflict));
}

#[test]
fn resolve_maps_requirement_places_to_columns() {
    let shape = vec![A, B, C, D];
    let selection = Selection::resolve(&shape, &vec![D, B]).unwrap();
    assert_eq!(selection.indices, vec![3, 1]);
    assert_eq!(selection.len(), 2);
    let all = Selection::resolve(&shape, &vec![B, A, D, C]).unwrap();
    assert_eq!(all.indices, vec![1, 0, 3, 2]);
    let none = Selection::resolve(&shape, &vec![]).unwrap();
    assert_eq!(none.indices, Vec::<usize>::new());
}

#[test]
fn resolve_reports_errors() {
    let shape = vec![A, B];
    assert_eq!(
        Selection::resolve(&shape, &vec![A, C, D]),
        Err(EcsError::ComponentNotPresent(C))
    );
    assert_eq!(Selection::resolve(&shape, &vec![B, B]), Err(EcsError::AliasConflict));
    assert_eq!(
        Selection::resolve(&shape, &vec![B, B, C]),
        Err(EcsError::ComponentNotPresent(C))
    );
}

#[test]
fn resolved_indices_never_repeat() {
    let types: Vec<ComponentType> = (0..6).map(|t| ComponentType(100 + t)).collect();
    let mut seed: u64 = 0x2545_f491_4f6c_dd1d;
    for _ in 0..200 {
        let mut shape = types.clone();
        let mut requirement = Vec::new();
        for i in (1..shape.len()).rev() {
            seed ^= seed << 13;
            seed ^= seed >> 7;
            seed ^= seed << 17;
            shape.swap(i, (seed % (i as u64 + 1)) as usize);
        }
        for t in &types {
            seed ^= seed << 13;
            seed ^= seed >> 7;
            seed ^= seed << 17;
            if seed % 2 == 0 {
                requirement.push(*t);
            }
        }
        let selection = Selection::resolve(&shape, &requirement).unwrap();
        assert_eq!(selection.indices.len(), requirement.len());
        for (j, column) in selection.indices.iter().enumerate() {
            assert_eq!(shape[*column], requirement[j]);
            for earlier in &selection.indices[..j] {
                assert_ne!(earlier, column);
            }
        }
    }
}

#[test]
fn find_position_gives_the_first_place() {
    let types = vec![A, B, A, C];
    assert_eq!(find_position(&types, A), Some(0));
    assert_eq!(find_position(&types, C), Some(3));
    assert_eq!(find_position(&types, D), None);
    assert_eq!(find_position(&vec![], A), None);
}

#[test]
fn all_distinct_spots_repeats() {
    assert!(all_distinct(&vec![]));
    assert!(all_distinct(&vec![A]));
    assert!(all_distinct(&vec![A, B, C]));
    assert!(!all_distinct(&vec![A, B, A]));
    assert!(!all_distinct(&vec![B, C, C]));
}

#[test]
fn component_mut_writes_one_cell() {
    let mut archetype = three_columns();
    let e0 = archetype.push(vec![1, 2, 3]);
    let e1 = archetype.push(vec![4, 5, 6]);
    {
        let cell = archetype.component_mut(e1, B).unwrap();
        assert_eq!(*cell, 5);
        *cell = 50;
    }
    assert_eq!(owned(archetype.row(e0).unwrap()), vec![1, 2, 3]);
    assert_eq!(owned(archetype.row(e1).unwrap()), vec![4, 50, 6]);
    assert_eq!(archetype.len(), 2);
}

#[test]
fn component_mut_reports_errors() {
    let mut archetype = three_columns();
    let e0 = archetype.push(vec![1, 2, 3]);
    assert!(matches!(
        archetype.component_mut(e0, D),
        Err(EcsError::ComponentNotPresent(ComponentType(40)))
    ));
    let stranger = Entity { row_index: 0, archetype_id: 5, generation: 9 };
    assert!(matches!(archetype.component_mut(stranger, A), Err(EcsError::UnknownEntity)));
    assert!(matches!(archetype.component_mut(stranger, D), Err(EcsError::UnknownEntity)));
    assert_eq!(owned(archetype.row(e0).unwrap()), vec![1, 2, 3]);
}
