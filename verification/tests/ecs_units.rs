use icarus::ecs::component::ComponentType;
use icarus::ecs::storage::ArchetypeStorage;
use icarus::ecs::system::System;
use nalgebra::{Quaternion, SVector};
use std::ops::{Add, AddAssign};

#[derive(Copy, Clone, Default, Debug, PartialEq)]
pub struct Transform {
    position: SVector<f32, 3>,
    rotation: Quaternion<f32>,
    scale: SVector<f32, 3>,
}

#[derive(Copy, Clone, Default, Debug, PartialEq)]
pub struct DeltaTransform {
    position: SVector<f32, 3>,
    rotation: Quaternion<f32>,
    scale: SVector<f32, 3>,
}

impl Add<DeltaTransform> for Transform {
    type Output = Transform;

    fn add(mut self, rhs: DeltaTransform) -> Self::Output {
        self.position += rhs.position;
        self.rotation += rhs.rotation;
        self.scale += rhs.scale;

        self
    }
}

impl AddAssign<DeltaTransform> for Transform {
    fn add_assign(&mut self, rhs: DeltaTransform) {
        *self = *self + rhs;
    }
}

#[derive(Copy, Clone, Default, Debug, PartialEq)]
pub struct Model {}

#[derive(Copy, Clone, Debug, PartialEq)]
enum Component {
    Transform(Transform),
    DeltaTransform(DeltaTransform),
    Model(Model),
}

const TRANSFORM: ComponentType = ComponentType(1);
const DELTA_TRANSFORM: ComponentType = ComponentType(2);
const MODEL: ComponentType = ComponentType(3);

struct MovementSystem;

impl System<Component> for MovementSystem {
    fn requirement(&self) -> Vec<ComponentType> {
        vec![TRANSFORM, DELTA_TRANSFORM]
    }

    fn update(&self, row: &mut Vec<Component>) -> Result<(), String> {
        let delta = match row[1] {
            Component::DeltaTransform(delta) => delta,
            _ => return Err(format!("not a delta transform")),
        };
        match &mut row[0] {
            Component::Transform(transform) => {
                *transform += delta;
                Ok(())
            }
            _ => Err(format!("not a transform")),
        }
    }
}

struct RenderSystem;

impl System<Component> for RenderSystem {
    fn requirement(&self) -> Vec<ComponentType> {
        vec![TRANSFORM, MODEL]
    }

    fn update(&self, _row: &mut Vec<Component>) -> Result<(), String> {
        println!("I feel totally modeled rn");
        Ok(())
    }
}

fn delta_transform_base() -> DeltaTransform {
    DeltaTransform {
        position: SVector::<f32, 3>::new(-10.0, 4.0, 2.0),
        rotation: Quaternion::new(1.0, 0.0, 0.0, 0.0),
        scale: SVector::<f32, 3>::new(1.0, 1.0, 1.0),
    }
}

fn transform_base() -> Transform {
    Transform {
        position: SVector::<f32, 3>::new(0.0, 0.0, 0.0),
        rotation: Quaternion::new(1.0, 0.0, 0.0, 0.0),
        scale: SVector::<f32, 3>::new(1.0, 1.0, 1.0),
    }
}

#[test]
fn test_ecs() {
    const COMPONENT_SIZE_UNIT: usize = 10;

    let mut unit_arch: ArchetypeStorage<Component> =
        ArchetypeStorage::new(0, vec![TRANSFORM, DELTA_TRANSFORM, MODEL]).unwrap();
    for _ in 0..COMPONENT_SIZE_UNIT {
        unit_arch.push(vec![
            Component::Transform(transform_base()),
            Component::DeltaTransform(delta_transform_base()),
            Component::Model(Model {}),
        ]);
    }

    const COMPONENT_SIZE_TILE: usize = 10;

    let mut tile_arch: ArchetypeStorage<Component> =
        ArchetypeStorage::new(1, vec![TRANSFORM, MODEL]).unwrap();
    for _ in 0..COMPONENT_SIZE_TILE {
        tile_arch.push(vec![
            Component::Transform(transform_base()),
            Component::Model(Model {}),
        ]);
    }

    println!(
        "{:?}",
        unit_arch.get_components(&vec![TRANSFORM, DELTA_TRANSFORM, MODEL])
    );

    assert_eq!(unit_arch.apply_system(&MovementSystem), Ok(()));
    assert_eq!(tile_arch.apply_system(&RenderSystem), Ok(()));

    println!(
        "{:?}",
        unit_arch.get_components(&vec![TRANSFORM, DELTA_TRANSFORM, MODEL])
    );

    let moved = Transform {
        position: SVector::<f32, 3>::new(-10.0, 4.0, 2.0),
        rotation: Quaternion::new(2.0, 0.0, 0.0, 0.0),
        scale: SVector::<f32, 3>::new(2.0, 2.0, 2.0),
    };
    let columns = unit_arch
        .get_components(&vec![TRANSFORM, DELTA_TRANSFORM, MODEL])
        .unwrap();
    assert_eq!(unit_arch.len(), COMPONENT_SIZE_UNIT);
    for row in 0..COMPONENT_SIZE_UNIT {
        assert_eq!(columns[0][row], Component::Transform(moved));
        assert_eq!(
            columns[1][row],
            Component::DeltaTransform(delta_transform_base())
        );
        assert_eq!(columns[2][row], Component::Model(Model {}));
    }
    let tiles = tile_arch.get_components(&vec![TRANSFORM]).unwrap();
    for row in 0..COMPONENT_SIZE_TILE {
        assert_eq!(tiles[0][row], Component::Transform(transform_base()));
    }
}
