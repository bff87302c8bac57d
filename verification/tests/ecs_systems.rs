use icarus::ecs::component::ComponentType;
use icarus::ecs::dispatch::conclude;
use icarus::ecs::error::EcsError;
use icarus::ecs::rows::reversed;
use icarus::ecs::selection::Selection;
use icarus::ecs::storage::ArchetypeStorage;
use icarus::ecs::system::System;
use icarus::ecs::world::World;

const POSITION: ComponentType = ComponentType(1);
const DELTA: ComponentType = ComponentType(2);
const MODEL: ComponentType = ComponentType(3);
const MASS: ComponentType = ComponentType(4);

type Triple = [f32; 3];

/// What the systems of these tests do, by name; one type, so that a world can
/// hold several of them.
#[derive(Clone, Copy, Debug, PartialEq)]
enum Rule {
    /// Requires delta, then position.
    Move,
    /// The same as `Move`, with the requirement listed the other way round.
    MoveSwapped,
    /// Requires position and doubles it.
    Double,
    /// Requires position and mass, which no archetype of these tests has.
    Weigh,
    /// Requires delta, and fails on the rows whose first delta is the given one.
    FailOn(f32),
    /// Requires position twice.
    Twice,
}

impl System<Triple> for Rule {
    fn requirement(&self) -> Vec<ComponentType> {
        match self {
            Rule::Move => vec![DELTA, POSITION],
            Rule::MoveSwapped => vec![POSITION, DELTA],
            Rule::Double => vec![POSITION],
            Rule::Weigh => vec![POSITION, MASS],
            Rule::FailOn(_) => vec![DELTA],
            Rule::Twice => vec![POSITION, POSITION],
        }
    }

    fn update(&self, row: &mut Vec<Triple>) -> Result<(), String> {
        match self {
            Rule::Move => {
                for axis in 0..3 {
                    row[1][axis] += row[0][axis];
                }
            }
            Rule::MoveSwapped => {
                for axis in 0..3 {
                    row[0][axis] += row[1][axis];
                }
            }
            Rule::Double => {
                for axis in 0..3 {
                    row[0][axis] *= 2.0;
                }
            }
            Rule::Weigh | Rule::Twice => {}
            Rule::FailOn(mark) => {
                if row[0][0] == *mark {
                    return Err(format!("row marked {}", mark));
                }
                row[0][1] += 1.0;
            }
        }
        Ok(())
    }
}

fn moving(rows: usize) -> ArchetypeStorage<Triple> {
    let mut archetype = ArchetypeStorage::new(7, vec![POSITION, DELTA]).unwrap();
    for _ in 0..rows {
        archetype.push(vec![[0.0, 0.0, 0.0], [-10.0, 4.0, 2.0]]);
    }
    archetype
}

fn numbered(rows: usize) -> ArchetypeStorage<Triple> {
    let mut archetype = ArchetypeStorage::new(8, vec![DELTA, MODEL, POSITION]).unwrap();
    for i in 0..rows {
        let x = i as f32;
        archetype.push(vec![[x, 0.0, 0.0], [0.5, 0.5, 0.5], [x, 2.0 * x, 3.0 * x]]);
    }
    archetype
}

fn column(archetype: &ArchetypeStorage<Triple>, ty: ComponentType) -> Vec<Triple> {
    archetype.get_components(&vec![ty]).unwrap()[0].clone()
}

#[test]
fn movement_adds_delta_to_position() {
    let mut archetype = moving(4);
    assert_eq!(archetype.apply_system(&Rule::Move), Ok(()));
    assert_eq!(archetype.len(), 4);
    assert_eq!(column(&archetype, POSITION), vec![[-10.0, 4.0, 2.0]; 4]);
    assert_eq!(column(&archetype, DELTA), vec![[-10.0, 4.0, 2.0]; 4]);
}

#[test]
fn movement_in_row_order_does_the_same() {
    let mut archetype = moving(4);
    assert_eq!(archetype.apply_system_in_order(&Rule::Move), Ok(()));
    assert_eq!(column(&archetype, POSITION), vec![[-10.0, 4.0, 2.0]; 4]);
    assert_eq!(column(&archetype, DELTA), vec![[-10.0, 4.0, 2.0]; 4]);
}

#[test]
fn dispatch_on_an_empty_archetype_does_nothing() {
    let mut archetype = moving(0);
    assert_eq!(archetype.apply_system(&Rule::Move), Ok(()));
    assert_eq!(archetype.apply_system_in_order(&Rule::Move), Ok(()));
    assert!(archetype.is_empty());
    assert_eq!(column(&archetype, POSITION), Vec::<Triple>::new());
}

#[test]
fn requirement_order_does_not_matter() {
    let mut one = numbered(9);
    let mut other = numbered(9);
    for _ in 0..3 {
        assert_eq!(one.apply_system(&Rule::Move), Ok(()));
        assert_eq!(other.apply_system(&Rule::MoveSwapped), Ok(()));
    }
    for ty in [DELTA, MODEL, POSITION] {
        assert_eq!(column(&one, ty), column(&other, ty));
    }
    assert_eq!(column(&one, POSITION)[4], [16.0, 8.0, 12.0]);
}

#[test]
fn columns_outside_the_requirement_are_untouched() {
    let mut archetype = numbered(5);
    assert_eq!(archetype.apply_system(&Rule::Double), Ok(()));
    assert_eq!(column(&archetype, MODEL), vec![[0.5, 0.5, 0.5]; 5]);
    assert_eq!(column(&archetype, DELTA)[3], [3.0, 0.0, 0.0]);
    assert_eq!(column(&archetype, POSITION)[3], [6.0, 12.0, 18.0]);
}

#[test]
fn handles_survive_a_dispatch() {
    let mut archetype = moving(0);
    let first = archetype.push(vec![[1.0, 1.0, 1.0], [1.0, 0.0, 0.0]]);
    let second = archetype.push(vec![[2.0, 2.0, 2.0], [0.0, 1.0, 0.0]]);
    assert_eq!(archetype.apply_system(&Rule::Move), Ok(()));
    assert_eq!(archetype.row(first).unwrap(), vec![&[2.0, 1.0, 1.0], &[1.0, 0.0, 0.0]]);
    assert_eq!(archetype.row(second).unwrap(), vec![&[2.0, 3.0, 2.0], &[0.0, 1.0, 0.0]]);
}

#[test]
fn missing_component_is_reported_and_nothing_changes() {
    let mut archetype = moving(2);
    assert_eq!(
        archetype.apply_system(&Rule::Weigh),
        Err(EcsError::ComponentNotPresent(MASS))
    );
    assert_eq!(
        archetype.apply_system_in_order(&Rule::Weigh),
        Err(EcsError::ComponentNotPresent(MASS))
    );
    assert_eq!(column(&archetype, POSITION), vec![[0.0, 0.0, 0.0]; 2]);
}

#[test]
fn repeated_requirement_is_an_alias_conflict() {
    let mut archetype = moving(2);
    assert_eq!(archetype.apply_system(&Rule::Twice), Err(EcsError::AliasConflict));
    assert_eq!(archetype.apply_system_in_order(&Rule::Twice), Err(EcsError::AliasConflict));
    assert_eq!(column(&archetype, POSITION), vec![[0.0, 0.0, 0.0]; 2]);
}

#[test]
fn failing_row_aborts_the_dispatch() {
    let mut archetype = numbered(4);
    let result = archetype.apply_system(&Rule::FailOn(2.0));
    assert!(matches!(result, Err(EcsError::SystemExecutionFailure(2, _))));
    assert_eq!(archetype.len(), 4);
    for (i, delta) in column(&archetype, DELTA).iter().enumerate() {
        assert_eq!(delta[0], i as f32);
        assert!(delta[1] == 0.0 || delta[1] == 1.0);
    }
    assert_eq!(column(&archetype, DELTA)[2], [2.0, 0.0, 0.0]);
}

#[test]
fn failing_row_stops_a_dispatch_in_row_order() {
    let mut archetype = numbered(4);
    let result = archetype.apply_system_in_order(&Rule::FailOn(2.0));
    assert_eq!(
        result,
        Err(EcsError::SystemExecutionFailure(2, "row marked 2".to_string()))
    );
    assert_eq!(
        column(&archetype, DELTA),
        vec![[0.0, 1.0, 0.0], [1.0, 1.0, 0.0], [2.0, 0.0, 0.0], [3.0, 0.0, 0.0]]
    );
}

#[test]
fn dispatch_with_a_kept_selection() {
    let mut archetype = numbered(3);
    let selection = Selection::resolve(archetype.shape(), &Rule::Move.requirement()).unwrap();
    assert_eq!(selection.indices, vec![0, 2]);
    assert_eq!(archetype.dispatch(&selection, &Rule::Move), Ok(()));
    assert_eq!(archetype.dispatch_in_order(&selection, &Rule::Move), Ok(()));
    assert_eq!(column(&archetype, POSITION)[2], [6.0, 4.0, 6.0]);
}

#[test]
fn large_archetype_is_updated_in_every_row() {
    let mut archetype = numbered(5000);
    assert_eq!(archetype.apply_system(&Rule::Move), Ok(()));
    let positions = column(&archetype, POSITION);
    for (i, position) in positions.iter().enumerate() {
        let x = i as f32;
        assert_eq!(*position, [2.0 * x, 2.0 * x, 3.0 * x]);
    }
}

#[test]
fn conclude_names_the_row_and_the_cause() {
    assert_eq!(conclude(Ok(())), Ok(()));
    assert_eq!(
        conclude(Err((3, "broken".to_string()))),
        Err(EcsError::SystemExecutionFailure(3, "broken".to_string()))
    );
}

#[test]
fn reversed_turns_a_vector_round() {
    assert_eq!(reversed(vec![1, 2, 3, 4]), vec![4, 3, 2, 1]);
    assert_eq!(reversed(Vec::<u8>::new()), Vec::<u8>::new());
}

fn two_archetype_world() -> World<Triple, Rule> {
    let mut world = World::new();
    assert_eq!(world.add_archetype(vec![POSITION, DELTA]), Ok(0));
    assert_eq!(world.add_archetype(vec![MODEL, POSITION]), Ok(1));
    for i in 0..4 {
        let x = i as f32;
        world.push(0, vec![[0.0, 0.0, 0.0], [x, 4.0, 2.0]]);
        world.push(1, vec![[0.5, 0.5, 0.5], [x, x, x]]);
    }
    world
}

fn world_column(world: &World<Triple, Rule>, archetype: usize, ty: ComponentType) -> Vec<Triple> {
    column(world.archetype(archetype), ty)
}

#[test]
fn tick_applies_systems_in_registration_order() {
    let mut world = two_archetype_world();
    assert_eq!(world.register_system(Rule::Move), Ok(()));
    assert_eq!(world.register_system(Rule::Double), Ok(()));
    assert_eq!(world.system_count(), 2);
    assert_eq!(world.archetype_count(), 2);
    assert_eq!(world.tick(), Ok(()));
    assert_eq!(
        world_column(&world, 0, POSITION),
        vec![[0.0, 8.0, 4.0], [2.0, 8.0, 4.0], [4.0, 8.0, 4.0], [6.0, 8.0, 4.0]]
    );
    assert_eq!(
        world_column(&world, 1, POSITION),
        vec![[0.0, 0.0, 0.0], [2.0, 2.0, 2.0], [4.0, 4.0, 4.0], [6.0, 6.0, 6.0]]
    );
    assert_eq!(world_column(&world, 1, MODEL), vec![[0.5, 0.5, 0.5]; 4]);
    assert_eq!(world.tick(), Ok(()));
    assert_eq!(world_column(&world, 0, POSITION)[1], [6.0, 24.0, 12.0]);
}

#[test]
fn tick_order_is_the_order_of_registration() {
    let mut world = two_archetype_world();
    assert_eq!(world.register_system(Rule::Double), Ok(()));
    assert_eq!(world.register_system(Rule::Move), Ok(()));
    assert_eq!(world.tick(), Ok(()));
    assert_eq!(world_column(&world, 0, POSITION)[1], [1.0, 4.0, 2.0]);
}

#[test]
fn tick_skips_a_system_that_nothing_matches() {
    let mut world = two_archetype_world();
    assert_eq!(world.register_system(Rule::Weigh), Ok(()));
    let before: Vec<Vec<Triple>> = vec![
        world_column(&world, 0, POSITION),
        world_column(&world, 0, DELTA),
        world_column(&world, 1, MODEL),
        world_column(&world, 1, POSITION),
    ];
    assert_eq!(world.tick(), Ok(()));
    let after: Vec<Vec<Triple>> = vec![
        world_column(&world, 0, POSITION),
        world_column(&world, 0, DELTA),
        world_column(&world, 1, MODEL),
        world_column(&world, 1, POSITION),
    ];
    assert_eq!(before, after);
    assert_eq!(world.archetype(0).len(), 4);
    assert_eq!(world.archetype(1).len(), 4);
}

#[test]
fn tick_of_an_empty_world_succeeds() {
    let mut world: World<Triple, Rule> = World::new();
    assert_eq!(world.tick(), Ok(()));
    assert_eq!(world.register_system(Rule::Move), Ok(()));
    assert_eq!(world.tick(), Ok(()));
    assert_eq!(world.archetype_count(), 0);
}

#[test]
fn tick_reports_a_failing_row() {
    let mut world = two_archetype_world();
    assert_eq!(world.register_system(Rule::FailOn(2.0)), Ok(()));
    assert_eq!(world.register_system(Rule::Double), Ok(()));
    let result = world.tick();
    assert!(matches!(result, Err(EcsError::SystemExecutionFailure(2, _))));
    assert_eq!(world_column(&world, 1, POSITION)[3], [3.0, 3.0, 3.0]);
    assert_eq!(world.archetype(0).len(), 4);
}

#[test]
fn world_refuses_malformed_shapes_and_requirements() {
    let mut world: World<Triple, Rule> = World::new();
    assert_eq!(
        world.add_archetype(vec![POSITION, DELTA, POSITION]),
        Err(EcsError::AliasConflict)
    );
    assert_eq!(world.archetype_count(), 0);
    assert_eq!(world.register_system(Rule::Twice), Err(EcsError::AliasConflict));
    assert_eq!(world.system_count(), 0);
}

#[test]
fn archetypes_added_after_a_system_are_matched() {
    let mut world: World<Triple, Rule> = World::new();
    assert_eq!(world.register_system(Rule::Double), Ok(()));
    assert_eq!(world.add_archetype(vec![DELTA, POSITION]), Ok(0));
    let entity = world.push(0, vec![[1.0, 1.0, 1.0], [1.0, 2.0, 3.0]]);
    assert_eq!(entity.archetype_id, 0);
    assert_eq!(world.tick(), Ok(()));
    assert_eq!(world_column(&world, 0, POSITION), vec![[2.0, 4.0, 6.0]]);
}

#[test]
fn world_removes_by_handle() {
    let mut world = two_archetype_world();
    let extra = world.push(1, vec![[9.0, 9.0, 9.0], [8.0, 8.0, 8.0]]);
    assert_eq!(extra.row_index, 4);
    assert_eq!(extra.archetype_id, 1);
    let (row, moved) = world.remove(extra).unwrap();
    assert_eq!(row, vec![[9.0, 9.0, 9.0], [8.0, 8.0, 8.0]]);
    assert_eq!(moved, None);
    assert_eq!(world.remove(extra), Err(EcsError::UnknownEntity));
    let nowhere = icarus::ecs::entity::Entity { row_index: 0, archetype_id: 2, generation: 0 };
    assert_eq!(world.remove(nowhere), Err(EcsError::UnknownEntity));
    assert_eq!(world.archetype(1).len(), 4);
}
