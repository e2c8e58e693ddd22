use pyreframe_engine::ecs::errors::GetComponentError;
use pyreframe_engine::ecs::errors::HasComponentError;
use pyreframe_engine::ecs::errors::RemoveComponentError;
use pyreframe_engine::ecs::tag::TypeTag;
use pyreframe_engine::Entity;
use pyreframe_engine::World;

const POSITION: TypeTag = TypeTag(1);

#[test]
fn entity_new_keeps_both_parts() {
    let e = Entity::new(7, 3);
    assert_eq!(e.id, 7);
    assert_eq!(e.generation, 3);
    assert_eq!(e, Entity { id: 7, generation: 3 });
    assert_ne!(e, Entity { id: 7, generation: 4 });
    assert_ne!(e, Entity { id: 8, generation: 3 });
}

#[test]
fn spawn_issues_sequential_ids_at_generation_zero() {
    let mut world: World<u32> = World::new();
    let a = world.spawn();
    let b = world.spawn();
    let c = world.spawn();
    assert_eq!(a, Entity::new(0, 0));
    assert_eq!(b, Entity::new(1, 0));
    assert_eq!(c, Entity::new(2, 0));
}

#[test]
fn ids_are_not_reused_after_despawn() {
    let mut world: World<u32> = World::new();
    let a = world.spawn();
    assert!(world.despawn(a));
    let b = world.spawn();
    assert_eq!(b, Entity::new(1, 0));
    assert_ne!(a.id, b.id);
    assert!(!world.is_alive(a));
    assert!(world.is_alive(b));
}

#[test]
fn spawned_entity_is_alive_and_empty() {
    let mut world: World<u32> = World::new();
    let e = world.spawn();
    assert!(world.is_alive(e));
    assert_eq!(world.has_component(e, POSITION), Ok(false));
    assert_eq!(world.get_component(e, POSITION), Err(GetComponentError::NotFound));
}

#[test]
fn despawned_handle_stays_dead() {
    let mut world: World<u32> = World::new();
    let e = world.spawn();
    assert!(world.despawn(e));
    assert!(!world.is_alive(e));

    let other = world.spawn();
    world.insert_component(other, POSITION, 5).unwrap();
    world.insert_resource(POSITION, 9);
    assert!(!world.is_alive(e));
    world.remove_component(other, POSITION).unwrap();
    assert!(world.despawn(other));
    world.spawn();
    assert!(!world.is_alive(e));
    assert!(!world.despawn(e));
}

#[test]
fn despawn_twice_then_read() {
    let mut world: World<u32> = World::new();
    let e = world.spawn();
    assert!(world.despawn(e));
    assert!(!world.despawn(e));
    assert_eq!(world.get_component(e, POSITION), Err(GetComponentError::DeadEntity));
}

#[test]
fn despawn_of_unknown_handle_changes_nothing() {
    let mut world: World<u32> = World::new();
    let e = world.spawn();
    world.insert_component(e, POSITION, 4).unwrap();

    assert!(!world.despawn(Entity::new(5, 0)));
    assert!(!world.despawn(Entity::new(0, 7)));

    assert_eq!(world.total_spawned(), 1);
    assert_eq!(world.alive_entity_count(), 1);
    assert!(world.is_alive(e));
    assert_eq!(world.get_component(e, POSITION), Ok(&4));
}

#[test]
fn handle_never_issued_is_not_alive() {
    let mut world: World<u32> = World::new();
    assert!(!world.is_alive(Entity::new(0, 0)));
    world.spawn();
    assert!(world.is_alive(Entity::new(0, 0)));
    assert!(!world.is_alive(Entity::new(0, 1)));
    assert!(!world.is_alive(Entity::new(1, 0)));
}

#[test]
fn counts_follow_spawns_and_despawns() {
    let mut world: World<u32> = World::new();
    let mut handles = Vec::new();
    for _ in 0..5 {
        handles.push(world.spawn());
    }
    assert_eq!(world.total_spawned(), 5);
    assert_eq!(world.alive_entity_count(), 5);

    assert!(world.despawn(handles[1]));
    assert!(world.despawn(handles[3]));
    assert!(!world.despawn(handles[3]));
    assert_eq!(world.total_spawned(), 5);
    assert_eq!(world.alive_entity_count(), 3);

    world.spawn();
    assert_eq!(world.total_spawned(), 6);
    assert_eq!(world.alive_entity_count(), 4);
}

#[test]
fn dead_entity_is_reported_by_every_component_operation() {
    let mut world: World<u32> = World::new();
    let e = world.spawn();
    world.insert_component(e, POSITION, 1).unwrap();
    world.despawn(e);

    assert_eq!(world.get_component(e, POSITION), Err(GetComponentError::DeadEntity));
    assert_eq!(world.has_component(e, POSITION), Err(HasComponentError::DeadEntity));
    assert_eq!(
        world.remove_component(e, POSITION),
        Err(RemoveComponentError::DeadEntity)
    );
    assert!(world.get_component_mut(e, POSITION).is_err());
}

#[test]
fn handle_with_the_generation_after_a_despawn_has_no_components() {
    let mut world: World<u32> = World::new();
    let e = world.spawn();
    world.insert_component(e, POSITION, 1).unwrap();
    assert!(world.despawn(e));

    let later = Entity::new(e.id, e.generation + 1);
    assert!(world.is_alive(later));
    assert_eq!(world.has_component(later, POSITION), Ok(false));
    assert_eq!(world.get_component(later, POSITION), Err(GetComponentError::NotFound));
    assert_eq!(
        world.remove_component(later, POSITION),
        Err(RemoveComponentError::NotFound)
    );
    assert_eq!(world.alive_entity_count(), 0);
}

#[test]
fn default_world_is_empty() {
    let world: World<u32> = World::default();
    assert_eq!(world.total_spawned(), 0);
    assert_eq!(world.alive_entity_count(), 0);
}
