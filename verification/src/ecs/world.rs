//! The world: entity liveness, per-entity component storage and global
//! resource storage.
//!
//! The world owns all data and hands out controlled access to it. It holds
//! no game logic.

use vstd::prelude::*;
use crate::ecs::entity::Entity;
use crate::ecs::errors::GetComponentError;
use crate::ecs::errors::GetComponentMutError;
use crate::ecs::errors::HasComponentError;
use crate::ecs::errors::InsertComponentError;
use crate::ecs::errors::RemoveComponentError;
use crate::ecs::errors::ResourceError;
use crate::ecs::query::ComponentSet;
use crate::ecs::table::Table;
use crate::ecs::tag::TypeTag;

verus! {

/// What a world holds, as mathematical values.
pub struct WorldView<V> {
    /// The stored generation of every id that was ever allocated. Its
    /// length is the number of entities spawned so far.
    pub generations: Seq<usize>,
    /// The component storage: one map from tags to values for every entity
    /// that has an entry.
    pub components: Map<Entity, Map<TypeTag, V>>,
    /// The resources: at most one value per tag.
    pub resources: Map<TypeTag, V>,
}

impl<V> WorldView<V> {
    /// The world before anything was spawned or inserted.
    pub open spec fn empty() -> WorldView<V> {
        WorldView {
            generations: Seq::empty(),
            components: Map::empty(),
            resources: Map::empty(),
        }
    }

    /// How many ids were ever allocated.
    pub open spec fn total_spawned(self) -> nat {
        self.generations.len()
    }

    /// A handle is alive when its id is known and its generation is the one
    /// stored for that id.
    pub open spec fn is_alive(self, e: Entity) -> bool {
        e.id < self.generations.len() && self.generations[e.id as int] == e.generation
    }

    /// A handle is retired when the stored generation of its id has moved
    /// past the handle's own.
    pub open spec fn is_retired(self, e: Entity) -> bool {
        e.id < self.generations.len() && e.generation < self.generations[e.id as int]
    }

    /// Whether the component storage has an entry for the handle.
    pub open spec fn has_storage(self, e: Entity) -> bool {
        self.components.contains_key(e)
    }

    /// How many entities have an entry in the component storage.
    pub open spec fn alive_count(self) -> nat {
        self.components.dom().len()
    }

    /// The state is consistent: the component storage has an entry exactly
    /// for the handles that `spawn` issued and that were not despawned
    /// since. Every handle that `spawn` issues carries generation 0, because
    /// ids are never reused.
    pub open spec fn wf(self) -> bool {
        &&& self.generations.len() <= usize::MAX
        &&& self.components.dom().finite()
        &&& forall|e: Entity| #[trigger]
            self.components.contains_key(e) <==> e.generation == 0 && self.is_alive(e)
    }

    /// The handle that the next `spawn` issues.
    pub open spec fn next_entity(self) -> Entity {
        Entity { id: self.generations.len() as usize, generation: 0 }
    }

    /// The state after one `spawn`.
    pub open spec fn spawn(self) -> WorldView<V> {
        WorldView {
            generations: self.generations.push(0),
            components: self.components.insert(self.next_entity(), Map::empty()),
            resources: self.resources,
        }
    }

    /// The state after `despawn(e)`: unchanged for a handle that is not
    /// alive; otherwise the entry of `e` is gone and the stored generation
    /// of its id is one higher.
    pub open spec fn despawn(self, e: Entity) -> WorldView<V> {
        if self.is_alive(e) {
            WorldView {
                generations: self.generations.update(e.id as int, (e.generation + 1) as usize),
                components: self.components.remove(e),
                resources: self.resources,
            }
        } else {
            self
        }
    }

    /// Whether `e` has an entry that holds a value under `tag`.
    pub open spec fn has_component(self, e: Entity, tag: TypeTag) -> bool {
        self.components.contains_key(e) && self.components[e].contains_key(tag)
    }

    /// The value that `e` holds under `tag`.
    pub open spec fn component(self, e: Entity, tag: TypeTag) -> V
        recommends
            self.has_component(e, tag),
    {
        self.components[e][tag]
    }

    /// The state after `value` was stored under `tag` for `e`.
    pub open spec fn insert_component(self, e: Entity, tag: TypeTag, value: V) -> WorldView<V>
        recommends
            self.has_storage(e),
    {
        WorldView {
            generations: self.generations,
            components: self.components.insert(e, self.components[e].insert(tag, value)),
            resources: self.resources,
        }
    }

    /// The state after the value under `tag` was taken from `e`.
    pub open spec fn remove_component(self, e: Entity, tag: TypeTag) -> WorldView<V>
        recommends
            self.has_storage(e),
    {
        WorldView {
            generations: self.generations,
            components: self.components.insert(e, self.components[e].remove(tag)),
            resources: self.resources,
        }
    }

    /// The state after `value` was stored as the resource under `tag`.
    pub open spec fn insert_resource(self, tag: TypeTag, value: V) -> WorldView<V> {
        WorldView {
            generations: self.generations,
            components: self.components,
            resources: self.resources.insert(tag, value),
        }
    }

    /// Whether `e` has an entry that holds a value under every tag of
    /// `tags`.
    pub open spec fn has_all(self, e: Entity, tags: Seq<TypeTag>) -> bool {
        &&& self.components.contains_key(e)
        &&& forall|i: int|
            0 <= i < tags.len() ==> self.components[e].contains_key(#[trigger] tags[i])
    }
}

/// The central store of entities, components and resources.
///
/// `V` is the opaque payload type: the world moves values of it and never
/// looks inside. Logical types are told apart by the tag given with each
/// value.
pub struct World<V> {
    /// The stored generation per allocated id.
    generations: Vec<usize>,
    /// The component table per allocated id; `None` once despawned.
    components: Vec<Option<Table<V>>>,
    /// How many ids still have a component table.
    alive: usize,
    /// The global resources.
    resources: Table<V>,
}

/// The map that an optional table stands for.
pub open spec fn table_map<V>(slot: Option<Table<V>>) -> Map<TypeTag, V> {
    match slot {
        Some(table) => table@,
        None => Map::empty(),
    }
}

/// The component storage that a list of optional tables stands for: the
/// table at position `i`, where there is one, is the entry of the handle
/// with id `i` and generation 0.
pub open spec fn storage_map<V>(slots: Seq<Option<Table<V>>>) -> Map<Entity, Map<TypeTag, V>> {
    Map::new(
        |e: Entity| e.generation == 0 && e.id < slots.len() && slots[e.id as int] is Some,
        |e: Entity| table_map(slots[e.id as int]),
    )
}

/// Replacing the table of an id that has one changes that entry alone.
pub proof fn lemma_storage_update<V>(slots: Seq<Option<Table<V>>>, i: int, table: Table<V>)
    requires
        0 <= i < slots.len(),
        i <= usize::MAX,
        slots[i] is Some,
    ensures
        storage_map(slots.update(i, Some(table))) == storage_map(slots).insert(
            Entity { id: i as usize, generation: 0 },
            table@,
        ),
        storage_map(slots.update(i, Some(table))).dom() == storage_map(slots).dom(),
{
    let after = slots.update(i, Some(table));
    let e = Entity { id: i as usize, generation: 0 };
    assert(storage_map(after) =~= storage_map(slots).insert(e, table@));
    assert(storage_map(after).dom() =~= storage_map(slots).dom());
}

/// Appending a table adds the entry of the next id.
pub proof fn lemma_storage_push<V>(slots: Seq<Option<Table<V>>>, table: Table<V>)
    requires
        slots.len() <= usize::MAX,
    ensures
        storage_map(slots.push(Some(table))) == storage_map(slots).insert(
            Entity { id: slots.len() as usize, generation: 0 },
            table@,
        ),
        !storage_map(slots).contains_key(Entity { id: slots.len() as usize, generation: 0 }),
{
    let after = slots.push(Some(table));
    let e = Entity { id: slots.len() as usize, generation: 0 };
    assert forall|k: int| 0 <= k < slots.len() implies #[trigger] after[k] == slots[k] by {}
    assert(storage_map(after) =~= storage_map(slots).insert(e, table@));
}

/// Dropping the table of an id removes that entry alone.
pub proof fn lemma_storage_clear<V>(slots: Seq<Option<Table<V>>>, i: int)
    requires
        0 <= i < slots.len(),
        i <= usize::MAX,
    ensures
        storage_map(slots.update(i, None)) == storage_map(slots).remove(
            Entity { id: i as usize, generation: 0 },
        ),
{
    let after = slots.update(i, None);
    let e = Entity { id: i as usize, generation: 0 };
    assert(storage_map(after) =~= storage_map(slots).remove(e));
}

impl<V> World<V> {
    /// What the world holds.
    pub closed spec fn view(&self) -> WorldView<V> {
        WorldView {
            generations: self.generations@,
            components: storage_map(self.components@),
            resources: self.resources@,
        }
    }

    /// The invariant of the representation.
    pub closed spec fn inv(&self) -> bool {
        &&& self.generations@.len() == self.components@.len()
        &&& forall|i: int|
            0 <= i < self.components@.len() ==> (#[trigger] self.components@[i] is Some
                <==> self.generations@[i] == 0)
        &&& forall|i: int|
            0 <= i < self.components@.len() && #[trigger] self.components@[i] is Some
                ==> self.components@[i]->0.wf()
        &&& self.resources.wf()
        &&& self.alive <= self.components@.len()
        &&& self@.components.dom().finite()
        &&& self@.components.dom().len() == self.alive
    }

    /// A world is well formed when its representation is consistent; what
    /// it holds is then consistent too.
    pub open spec fn wf(&self) -> bool {
        self.inv() && self@.wf()
    }

    /// Creates an empty world.
    pub fn new() -> (w: World<V>)
        ensures
            w.wf(),
            w@ == WorldView::<V>::empty(),
    {
        let w = World {
            generations: Vec::new(),
            components: Vec::new(),
            alive: 0,
            resources: Table::new(),
        };
        assert(w@.components =~= Map::empty());
        w
    }

    /// Whether the handle is alive: its id was allocated and its generation
    /// is the one stored for the id.
    pub fn is_alive(&self, entity: Entity) -> (r: bool)
        ensures
            r == self@.is_alive(entity),
    {
        entity.id < self.generations.len() && self.generations[entity.id] == entity.generation
    }

    /// Whether the component storage has an entry for the handle. Every
    /// handle that `spawn` issued has one until it is despawned.
    pub fn has_storage(&self, entity: Entity) -> (r: bool)
        requires
            self.wf(),
        ensures
            r == self@.has_storage(entity),
    {
        entity.generation == 0 && entity.id < self.components.len()
            && self.components[entity.id].is_some()
    }

    /// The number of entities ever spawned, despawned ones included.
    pub fn total_spawned(&self) -> (n: usize)
        ensures
            n == self@.total_spawned(),
    {
        self.generations.len()
    }

    /// The number of entities that have an entry in the component storage.
    pub fn alive_entity_count(&self) -> (n: usize)
        requires
            self.wf(),
        ensures
            n == self@.alive_count(),
    {
        self.alive
    }
}

impl<V> World<V> {
    /// The component table of the handle, if the storage has an entry for
    /// it.
    fn table_of(&self, entity: Entity) -> (r: Option<&Table<V>>)
        requires
            self.wf(),
        ensures
            match r {
                Some(table) => {
                    &&& self@.has_storage(entity)
                    &&& table.wf()
                    &&& table@ == self@.components[entity]
                },
                None => !self@.has_storage(entity),
            },
    {
        if entity.generation == 0 && entity.id < self.components.len() {
            match &self.components[entity.id] {
                Some(table) => Some(table),
                None => None,
            }
        } else {
            None
        }
    }

    /// A reference to the component that `entity` holds under `tag`.
    ///
    /// Fails with `DeadEntity` when the handle is not alive, and with
    /// `NotFound` when it is alive but holds nothing under `tag`.
    pub fn get_component(&self, entity: Entity, tag: TypeTag) -> (r: Result<&V, GetComponentError>)
        requires
            self.wf(),
        ensures
            match r {
                Ok(value) => {
                    &&& self@.is_alive(entity)
                    &&& self@.has_component(entity, tag)
                    &&& *value == self@.component(entity, tag)
                },
                Err(GetComponentError::DeadEntity) => !self@.is_alive(entity),
                Err(GetComponentError::NotFound) => {
                    &&& self@.is_alive(entity)
                    &&& !self@.has_component(entity, tag)
                },
            },
    {
        if !self.is_alive(entity) {
            return Err(GetComponentError::DeadEntity);
        }
        match self.table_of(entity) {
            Some(table) => match table.get(tag) {
                Some(value) => Ok(value),
                None => Err(GetComponentError::NotFound),
            },
            None => Err(GetComponentError::NotFound),
        }
    }

    /// Whether `entity` holds a component under `tag`.
    ///
    /// Fails with `DeadEntity` when the handle is not alive. Absence is an
    /// answer, not an error.
    pub fn has_component(&self, entity: Entity, tag: TypeTag) -> (r: Result<
        bool,
        HasComponentError,
    >)
        requires
            self.wf(),
        ensures
            match r {
                Ok(present) => {
                    &&& self@.is_alive(entity)
                    &&& present == self@.has_component(entity, tag)
                },
                Err(HasComponentError::DeadEntity) => !self@.is_alive(entity),
            },
    {
        if !self.is_alive(entity) {
            return Err(HasComponentError::DeadEntity);
        }
        match self.table_of(entity) {
            Some(table) => Ok(table.contains(tag)),
            None => Ok(false),
        }
    }
}

impl<V> World<V> {
    /// Mutable access to the component table of the handle, if the storage
    /// has an entry for it. As long as the table stays well formed, the
    /// world does, and the entry of the handle is what the table holds in
    /// the end.
    fn table_of_mut(&mut self, entity: Entity) -> (r: Option<&mut Table<V>>)
        requires
            old(self).wf(),
        ensures
            match r {
                Some(table) => {
                    &&& old(self)@.has_storage(entity)
                    &&& table.wf()
                    &&& table@ == old(self)@.components[entity]
                    &&& final(table).wf() ==> {
                        &&& final(self).wf()
                        &&& final(self)@ == (WorldView {
                            components: old(self)@.components.insert(entity, final(table)@),
                            ..old(self)@
                        })
                    }
                },
                None => {
                    &&& !old(self)@.has_storage(entity)
                    &&& final(self).wf()
                    &&& final(self)@ == old(self)@
                },
            },
    {
        if entity.generation == 0 && entity.id < self.components.len()
            && self.components[entity.id].is_some() {
            let ghost slots = self.components@;
            match &mut self.components[entity.id] {
                Some(table) => {
                    proof {
                        lemma_storage_update(slots, entity.id as int, *final(table));
                    }
                    Some(table)
                },
                None => None,
            }
        } else {
            None
        }
    }

    /// A mutable reference to the component that `entity` holds under
    /// `tag`. What the caller leaves behind the reference is the component
    /// from then on; nothing else changes.
    ///
    /// Fails as `get_component` does.
    pub fn get_component_mut(&mut self, entity: Entity, tag: TypeTag) -> (r: Result<
        &mut V,
        GetComponentMutError,
    >)
        requires
            old(self).wf(),
        ensures
            final(self).wf(),
            match r {
                Ok(value) => {
                    &&& old(self)@.is_alive(entity)
                    &&& old(self)@.has_component(entity, tag)
                    &&& *value == old(self)@.component(entity, tag)
                    &&& final(self)@ == old(self)@.insert_component(entity, tag, *final(value))
                },
                Err(GetComponentMutError::DeadEntity) => {
                    &&& !old(self)@.is_alive(entity)
                    &&& final(self)@ == old(self)@
                },
                Err(GetComponentMutError::NotFound) => {
                    &&& old(self)@.is_alive(entity)
                    &&& !old(self)@.has_component(entity, tag)
                    &&& final(self)@ == old(self)@
                },
            },
    {
        if !self.is_alive(entity) {
            return Err(GetComponentMutError::DeadEntity);
        }
        match self.table_of_mut(entity) {
            Some(table) => match table.get_mut(tag) {
                Some(value) => Ok(value),
                None => {
                    assert(old(self)@.components.insert(entity, old(self)@.components[entity])
                        =~= old(self)@.components);
                    Err(GetComponentMutError::NotFound)
                },
            },
            None => Err(GetComponentMutError::NotFound),
        }
    }
}

impl<V> World<V> {
    /// Takes the component that `entity` holds under `tag` out of the world
    /// and returns it.
    ///
    /// Fails as `get_component` does, and then changes nothing.
    pub fn remove_component(&mut self, entity: Entity, tag: TypeTag) -> (r: Result<
        V,
        RemoveComponentError,
    >)
        requires
            old(self).wf(),
        ensures
            final(self).wf(),
            match r {
                Ok(taken) => {
                    &&& old(self)@.is_alive(entity)
                    &&& old(self)@.has_component(entity, tag)
                    &&& taken == old(self)@.component(entity, tag)
                    &&& final(self)@ == old(self)@.remove_component(entity, tag)
                    &&& final(self)@.is_alive(entity)
                    &&& !final(self)@.has_component(entity, tag)
                },
                Err(RemoveComponentError::DeadEntity) => {
                    &&& !old(self)@.is_alive(entity)
                    &&& final(self)@ == old(self)@
                },
                Err(RemoveComponentError::NotFound) => {
                    &&& old(self)@.is_alive(entity)
                    &&& !old(self)@.has_component(entity, tag)
                    &&& final(self)@ == old(self)@
                },
            },
    {
        if !self.is_alive(entity) {
            return Err(RemoveComponentError::DeadEntity);
        }
        match self.table_of_mut(entity) {
            Some(table) => match table.remove(tag) {
                Some(taken) => Ok(taken),
                None => {
                    assert(old(self)@.components[entity].remove(tag) =~= old(
                        self,
                    )@.components[entity]);
                    assert(old(self)@.components.insert(entity, old(self)@.components[entity])
                        =~= old(self)@.components);
                    Err(RemoveComponentError::NotFound)
                },
            },
            None => Err(RemoveComponentError::NotFound),
        }
    }

    /// Stores `value` as the component of `entity` under `tag`, replacing
    /// the component that was there, and returns the replaced component.
    ///
    /// Fails with `DeadEntity`, and changes nothing, when the handle is not
    /// alive. An alive handle without storage is one that `spawn` never
    /// issued: the generation left behind by a despawn, written by hand.
    /// There is nowhere to store a component for it, so such a handle is
    /// not accepted.
    pub fn insert_component(&mut self, entity: Entity, tag: TypeTag, value: V) -> (r: Result<
        Option<V>,
        InsertComponentError,
    >)
        requires
            old(self).wf(),
            old(self)@.is_alive(entity) ==> old(self)@.has_storage(entity),
        ensures
            final(self).wf(),
            match r {
                Ok(previous) => {
                    &&& old(self)@.is_alive(entity)
                    &&& final(self)@ == old(self)@.insert_component(entity, tag, value)
                    &&& final(self)@.has_component(entity, tag)
                    &&& final(self)@.component(entity, tag) == value
                    &&& previous == if old(self)@.has_component(entity, tag) {
                        Some(old(self)@.component(entity, tag))
                    } else {
                        None
                    }
                },
                Err(InsertComponentError::DeadEntity) => {
                    &&& !old(self)@.is_alive(entity)
                    &&& final(self)@ == old(self)@
                },
            },
    {
        if !self.is_alive(entity) {
            return Err(InsertComponentError::DeadEntity);
        }
        match self.table_of_mut(entity) {
            Some(table) => Ok(table.insert(tag, value)),
            None => Err(InsertComponentError::DeadEntity),
        }
    }

    /// Stores `value` as the resource under `tag`, replacing the resource
    /// that was there, and returns the replaced resource.
    pub fn insert_resource(&mut self, tag: TypeTag, value: V) -> (r: Option<V>)
        requires
            old(self).wf(),
        ensures
            final(self).wf(),
            final(self)@ == old(self)@.insert_resource(tag, value),
            r == if old(self)@.resources.contains_key(tag) {
                Some(old(self)@.resources[tag])
            } else {
                None
            },
    {
        self.resources.insert(tag, value)
    }

    /// A reference to the resource under `tag`.
    ///
    /// Fails with `Missing` when no resource is stored under `tag`.
    pub fn get_resource(&self, tag: TypeTag) -> (r: Result<&V, ResourceError>)
        requires
            self.wf(),
        ensures
            match r {
                Ok(value) => self@.resources.contains_key(tag) && *value == self@.resources[tag],
                Err(ResourceError::Missing) => !self@.resources.contains_key(tag),
            },
    {
        match self.resources.get(tag) {
            Some(value) => Ok(value),
            None => Err(ResourceError::Missing),
        }
    }

    /// A mutable reference to the resource under `tag`. What the caller
    /// leaves behind the reference is the resource from then on; nothing
    /// else changes.
    ///
    /// Fails with `Missing` when no resource is stored under `tag`.
    pub fn get_resource_mut(&mut self, tag: TypeTag) -> (r: Result<&mut V, ResourceError>)
        requires
            old(self).wf(),
        ensures
            final(self).wf(),
            match r {
                Ok(value) => {
                    &&& old(self)@.resources.contains_key(tag)
                    &&& *value == old(self)@.resources[tag]
                    &&& final(self)@ == old(self)@.insert_resource(tag, *final(value))
                },
                Err(ResourceError::Missing) => {
                    &&& !old(self)@.resources.contains_key(tag)
                    &&& final(self)@ == old(self)@
                },
            },
    {
        match self.resources.get_mut(tag) {
            Some(value) => Ok(value),
            None => Err(ResourceError::Missing),
        }
    }
}

impl<V> World<V> {
    /// Spawns a new entity and returns its handle.
    ///
    /// The entity gets the next id in sequence, which no entity had before,
    /// and an empty component entry. The handle is alive from now on, until
    /// it is despawned.
    pub fn spawn(&mut self) -> (entity: Entity)
        requires
            old(self).wf(),
        ensures
            final(self).wf(),
            entity == old(self)@.next_entity(),
            final(self)@ == old(self)@.spawn(),
            !old(self)@.is_alive(entity),
            final(self)@.is_alive(entity),
            final(self)@.total_spawned() == old(self)@.total_spawned() + 1,
            final(self)@.alive_count() == old(self)@.alive_count() + 1,
    {
        let id: usize = self.generations.len();
        let table: Table<V> = Table::new();
        proof {
            lemma_storage_push(self.components@, table);
        }
        self.generations.push(0);
        self.components.push(Some(table));
        assert(self.alive < self.components.len());
        self.alive = self.alive + 1;
        Entity::new(id, 0)
    }

    /// Despawns an entity: drops its components and moves the stored
    /// generation of its id on, so that the handle is never alive again.
    ///
    /// Returns `false`, and changes nothing, when the handle is not alive.
    /// The generation of an alive handle must leave room for the next one.
    pub fn despawn(&mut self, entity: Entity) -> (despawned: bool)
        requires
            old(self).wf(),
            old(self)@.is_alive(entity) ==> entity.generation < usize::MAX,
        ensures
            final(self).wf(),
            despawned == old(self)@.is_alive(entity),
            final(self)@ == old(self)@.despawn(entity),
            !final(self)@.is_alive(entity),
            final(self)@.total_spawned() == old(self)@.total_spawned(),
            final(self)@.alive_count() == old(self)@.alive_count() - if old(self)@.has_storage(
                entity,
            ) {
                1int
            } else {
                0int
            },
    {
        if !self.is_alive(entity) {
            return false;
        }
        proof {
            lemma_storage_clear(self.components@, entity.id as int);
        }
        if self.components[entity.id].is_some() {
            assert(self@.components.dom().contains(entity));
            self.components[entity.id] = None;
            self.alive = self.alive - 1;
        } else {
            assert(old(self)@.components.remove(entity) =~= old(self)@.components);
        }
        self.generations[entity.id] = entity.generation + 1;
        true
    }
}

impl<V> World<V> {
    /// The entities that hold a component under every tag of `set`.
    ///
    /// Every entity with an entry in the component storage is looked at
    /// once. The result holds each matching entity once; callers should not
    /// rely on the order.
    pub fn entities_with(&self, set: &ComponentSet) -> (found: Vec<Entity>)
        requires
            self.wf(),
        ensures
            found@.no_duplicates(),
            forall|e: Entity| found@.contains(e) <==> self@.has_all(e, set@),
    {
        let required: Vec<TypeTag> = set.type_ids();
        let mut found: Vec<Entity> = Vec::new();
        let mut id: usize = 0;
        while id < self.components.len()
            invariant
                self.wf(),
                required@ == set@,
                id <= self.components@.len(),
                forall|k: int| 0 <= k < found@.len() ==> (#[trigger] found@[k]).id < id,
                forall|k: int, l: int|
                    0 <= k < l < found@.len() ==> (#[trigger] found@[k]).id < (
                    #[trigger] found@[l]).id,
                forall|e: Entity|
                    found@.contains(e) <==> e.id < id && self@.has_all(e, set@),
            decreases self.components@.len() - id,
        {
            let ghost before = found@;
            let matches: bool = match &self.components[id] {
                Some(table) => table.contains_all(&required),
                None => false,
            };
            let ghost candidate = Entity { id, generation: 0 };
            assert(matches == self@.has_all(candidate, set@));
            if matches {
                found.push(Entity::new(id, 0));
                assert(found@[before.len() as int] == candidate);
            }
            assert forall|e: Entity|
                found@.contains(e) <==> e.id < id + 1 && self@.has_all(e, set@) by {
                if found@.contains(e) {
                    let k = choose|k: int| 0 <= k < found@.len() && found@[k] == e;
                    if k < before.len() {
                        assert(before.contains(e));
                    }
                }
                if e.id < id && self@.has_all(e, set@) {
                    let k = choose|k: int| 0 <= k < before.len() && before[k] == e;
                    assert(found@[k] == e);
                }
            }
            id = id + 1;
        }
        found
    }
}

impl<V> Default for World<V> {
    /// The empty world, as `World::new` makes it.
    fn default() -> (w: World<V>)
        ensures
            w.wf(),
            w@ == WorldView::<V>::empty(),
    {
        World::new()
    }
}

} // verus!
