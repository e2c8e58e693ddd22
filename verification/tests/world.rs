use std::any::Any;

use pyreframe_engine::ecs::tag::TypeTag;
use pyreframe_engine::ecs::World;

type Position = pyreframe_engine::ecs::components::Position<f32>;
type Velocity = pyreframe_engine::ecs::components::Velocity<f32>;

const POSITION: TypeTag = TypeTag(1);
const VELOCITY: TypeTag = TypeTag(2);

#[test]
fn world_world_starts_empty() {
    let world: World<Box<dyn Any>> = World::new();
    assert_eq!(world.alive_entity_count(), 0);
}

#[test]
fn world_spawning_entity_increases_count() {
    let mut world: World<Box<dyn Any>> = World::new();
    world.spawn();
    assert_eq!(world.alive_entity_count(), 1);
}

#[test]
fn total_spawned_tracks_all_entities() {
    let mut world: World<Box<dyn Any>> = World::new();
    assert_eq!(world.total_spawned(), 0);

    let e1 = world.spawn();
    let _e2 = world.spawn();
    assert_eq!(world.total_spawned(), 2);

    world.despawn(e1);
    assert_eq!(world.total_spawned(), 2);

    let _e3 = world.spawn();
    assert_eq!(world.total_spawned(), 3);
}

#[test]
fn despawning_entity_removes_it_and_components() {
    let mut world: World<Box<dyn Any>> = World::new();
    let entity = world.spawn();

    world
        .insert_component(
            entity,
            POSITION,
            Box::new(Position {
                x: 10.0,
                y: 20.0,
                z: 0.0,
            }),
        )
        .unwrap();
    world
        .insert_component(
            entity,
            VELOCITY,
            Box::new(Velocity {
                dx: 1.0,
                dy: 2.0,
                dz: 0.0,
            }),
        )
        .unwrap();

    assert!(world.get_component(entity, POSITION).is_ok());
    assert!(world.get_component(entity, VELOCITY).is_ok());

    let despawned = world.despawn(entity);
    assert!(despawned);

    assert!(world.get_component(entity, POSITION).is_err());
    assert!(world.get_component(entity, VELOCITY).is_err());
}

#[test]
fn despawning_nonexistent_entity_returns_false() {
    let mut world: World<Box<dyn Any>> = World::new();
    let entity = world.spawn();
    world.despawn(entity);
    let result = world.despawn(entity);
    assert!(!result);
}

#[test]
fn despawn_invalidates_entity() {
    let mut world: World<Box<dyn Any>> = World::new();
    let e = world.spawn();
    assert!(world.is_alive(e));
    world.despawn(e);
    assert!(!world.is_alive(e));
}
