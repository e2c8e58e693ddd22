use std::any::Any;

use pyreframe_engine::ecs::query::ComponentSet;
use pyreframe_engine::ecs::tag::TypeTag;
use pyreframe_engine::ecs::World;

type Position = pyreframe_engine::ecs::components::Position<f32>;
type Velocity = pyreframe_engine::ecs::components::Velocity<f32>;

const POSITION: TypeTag = TypeTag(1);
const VELOCITY: TypeTag = TypeTag(2);

/// Adds the velocity of every entity that has one to its position.
fn movement_system(world: &mut World<Box<dyn Any>>) {
    let entities = world.entities_with(&ComponentSet::of(POSITION).and(VELOCITY));

    for entity in entities {
        let vel = *world
            .get_component(entity, VELOCITY)
            .unwrap()
            .downcast_ref::<Velocity>()
            .unwrap();
        let pos = world
            .get_component_mut(entity, POSITION)
            .unwrap()
            .downcast_mut::<Position>()
            .unwrap();

        pos.x += vel.dx;
        pos.y += vel.dy;
        pos.z += vel.dz;
    }
}

#[test]
fn ecs_world_starts_empty() {
    let world: World<Box<dyn Any>> = World::new();
    assert_eq!(world.alive_entity_count(), 0);
}

#[test]
fn ecs_spawning_entity_increases_count() {
    let mut world: World<Box<dyn Any>> = World::new();
    world.spawn();
    assert_eq!(world.alive_entity_count(), 1);
}

#[test]
fn ecs_component_can_be_inserted_read_and_mutated() {
    let mut world: World<Box<dyn Any>> = World::new();
    let entity = world.spawn();

    world
        .insert_component(
            entity,
            POSITION,
            Box::new(Position {
                x: 10.0,
                y: 20.0,
                z: 0.0,
            }),
        )
        .unwrap();

    {
        let pos = world
            .get_component(entity, POSITION)
            .unwrap()
            .downcast_ref::<Position>()
            .unwrap();
        assert_eq!(
            pos,
            &Position {
                x: 10.0,
                y: 20.0,
                z: 0.0
            }
        );
    }

    {
        let pos = world
            .get_component_mut(entity, POSITION)
            .unwrap()
            .downcast_mut::<Position>()
            .unwrap();
        pos.x = 15.0;
    }

    let pos = world
        .get_component(entity, POSITION)
        .unwrap()
        .downcast_ref::<Position>()
        .unwrap();
    assert_eq!(
        pos,
        &Position {
            x: 15.0,
            y: 20.0,
            z: 0.0
        }
    );
}

#[test]
fn ecs_entities_with_filters_by_component_presence() {
    let mut world: World<Box<dyn Any>> = World::new();

    let e1 = world.spawn();
    world
        .insert_component(
            e1,
            POSITION,
            Box::new(Position {
                x: 0.0,
                y: 0.0,
                z: 0.0,
            }),
        )
        .unwrap();

    let e2 = world.spawn();
    world
        .insert_component(
            e2,
            POSITION,
            Box::new(Position {
                x: 0.0,
                y: 0.0,
                z: 0.0,
            }),
        )
        .unwrap();
    world
        .insert_component(
            e2,
            VELOCITY,
            Box::new(Velocity {
                dx: 1.0,
                dy: 1.0,
                dz: 0.0,
            }),
        )
        .unwrap();

    let result = world.entities_with(&ComponentSet::of(POSITION).and(VELOCITY));

    assert_eq!(result, vec![e2]);
}

#[test]
fn ecs_movement_system_moves_entities_with_position_and_velocity() {
    let mut world: World<Box<dyn Any>> = World::new();

    let entity = world.spawn();
    world
        .insert_component(
            entity,
            POSITION,
            Box::new(Position {
                x: 1.0,
                y: 1.0,
                z: 0.0,
            }),
        )
        .unwrap();
    world
        .insert_component(
            entity,
            VELOCITY,
            Box::new(Velocity {
                dx: 1.0,
                dy: 0.5,
                dz: 0.0,
            }),
        )
        .unwrap();

    movement_system(&mut world);

    let pos = world
        .get_component(entity, POSITION)
        .unwrap()
        .downcast_ref::<Position>()
        .unwrap();
    assert_eq!(
        pos,
        &Position {
            x: 2.0,
            y: 1.5,
            z: 0.0
        }
    );
}

#[test]
fn ecs_initialize_velocity_system() {
    let mut world: World<Box<dyn Any>> = World::new();
    let entity = world.spawn();

    world
        .insert_component(
            entity,
            POSITION,
            Box::new(Position {
                x: 1.0,
                y: 1.0,
                z: 0.0,
            }),
        )
        .unwrap();

    assert!(!world.has_component(entity, VELOCITY).unwrap());

    for e in world.entities_with(&ComponentSet::of(POSITION)) {
        if !world.has_component(e, VELOCITY).unwrap() {
            world
                .insert_component(
                    e,
                    VELOCITY,
                    Box::new(Velocity {
                        dx: 2.0,
                        dy: 1.0,
                        dz: 0.0,
                    }),
                )
                .unwrap();
        }
    }

    assert!(world.has_component(entity, VELOCITY).unwrap());

    let vel = world
        .get_component(entity, VELOCITY)
        .unwrap()
        .downcast_ref::<Velocity>()
        .unwrap();
    assert_eq!(
        vel,
        &Velocity {
            dx: 2.0,
            dy: 1.0,
            dz: 0.0
        }
    );
}

#[test]
fn ecs_component_can_be_removed() {
    let mut world: World<Box<dyn Any>> = World::new();
    let entity = world.spawn();

    world
        .insert_component(
            entity,
            POSITION,
            Box::new(Position {
                x: 5.0,
                y: 10.0,
                z: 15.0,
            }),
        )
        .unwrap();

    assert!(world.has_component(entity, POSITION).unwrap());
    assert!(world.get_component(entity, POSITION).is_ok());

    let removed = world.remove_component(entity, POSITION).unwrap();
    let pos = removed.downcast::<Position>().ok().unwrap();

    assert_eq!(pos.x, 5.0);
    assert_eq!(pos.y, 10.0);
    assert_eq!(pos.z, 15.0);

    assert!(!world.has_component(entity, POSITION).unwrap());
    assert!(world.get_component(entity, POSITION).is_err());
}
