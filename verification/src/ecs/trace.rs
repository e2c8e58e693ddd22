//! Histories of a world.
//!
//! Every operation that changes what a world holds is a step, and a history
//! is a sequence of steps. The facts proved here hold after any history,
//! which is what "from then on" and "at any point in time" mean for a
//! world.

use vstd::prelude::*;
use crate::ecs::entity::Entity;
use crate::ecs::tag::TypeTag;
use crate::ecs::world::WorldView;

verus! {

/// One operation that may change what a world holds.
///
/// A write through a mutable reference to a component or to a resource
/// leaves the world as an insert of the written value under the same tag
/// does, so it needs no step of its own.
pub enum Step<V> {
    /// `spawn()`.
    Spawn,
    /// `despawn(entity)`.
    Despawn(Entity),
    /// `insert_component(entity, tag, value)`.
    InsertComponent(Entity, TypeTag, V),
    /// `remove_component(entity, tag)`.
    RemoveComponent(Entity, TypeTag),
    /// `insert_resource(tag, value)`.
    InsertResource(TypeTag, V),
}

impl<V> WorldView<V> {
    /// Whether the operation may be called in this state: the state meets
    /// what the operation requires.
    pub open spec fn admits(self, step: Step<V>) -> bool {
        match step {
            Step::Spawn => self.generations.len() < usize::MAX,
            Step::Despawn(e) => self.is_alive(e) ==> e.generation < usize::MAX,
            Step::InsertComponent(e, _, _) => self.is_alive(e) ==> self.has_storage(e),
            Step::RemoveComponent(_, _) => true,
            Step::InsertResource(_, _) => true,
        }
    }

    /// The state that the operation leaves. An operation that fails leaves
    /// the state as it was.
    pub open spec fn step(self, step: Step<V>) -> WorldView<V> {
        match step {
            Step::Spawn => self.spawn(),
            Step::Despawn(e) => self.despawn(e),
            Step::InsertComponent(e, tag, value) => if self.is_alive(e) {
                self.insert_component(e, tag, value)
            } else {
                self
            },
            Step::RemoveComponent(e, tag) => if self.has_component(e, tag) {
                self.remove_component(e, tag)
            } else {
                self
            },
            Step::InsertResource(tag, value) => self.insert_resource(tag, value),
        }
    }

    /// The state after all steps of `steps`, in order.
    pub open spec fn after(self, steps: Seq<Step<V>>) -> WorldView<V>
        decreases steps.len(),
    {
        if steps.len() == 0 {
            self
        } else {
            self.after(steps.drop_last()).step(steps.last())
        }
    }

    /// Whether every step of `steps` may be called in the state in which
    /// its turn comes.
    pub open spec fn admits_all(self, steps: Seq<Step<V>>) -> bool
        decreases steps.len(),
    {
        if steps.len() == 0 {
            true
        } else {
            self.admits_all(steps.drop_last()) && self.after(steps.drop_last()).admits(steps.last())
        }
    }
}

/// How many steps of `steps` are spawns.
pub open spec fn spawn_count<V>(steps: Seq<Step<V>>) -> nat
    decreases steps.len(),
{
    if steps.len() == 0 {
        0
    } else {
        spawn_count(steps.drop_last()) + if steps.last() is Spawn {
            1nat
        } else {
            0nat
        }
    }
}

/// How many steps of `steps`, run from state `start`, are despawns that
/// succeed: despawns of a handle that is alive when its turn comes.
pub open spec fn despawn_count<V>(start: WorldView<V>, steps: Seq<Step<V>>) -> nat
    decreases steps.len(),
{
    if steps.len() == 0 {
        0
    } else {
        despawn_count(start, steps.drop_last()) + match steps.last() {
            Step::Despawn(e) => if start.after(steps.drop_last()).is_alive(e) {
                1nat
            } else {
                0nat
            },
            _ => 0nat,
        }
    }
}

/// Whether every despawn of `steps`, run from state `start`, that succeeds
/// is the despawn of an entity with storage. That is so unless a despawn is
/// given a handle that `spawn` never issued and that is alive all the same:
/// a handle written by hand with the generation that a despawn left behind.
pub open spec fn despawns_stored_entities<V>(start: WorldView<V>, steps: Seq<Step<V>>) -> bool
    decreases steps.len(),
{
    if steps.len() == 0 {
        true
    } else {
        &&& despawns_stored_entities(start, steps.drop_last())
        &&& steps.last() matches Step::Despawn(e) ==> {
            let now = start.after(steps.drop_last());
            now.is_alive(e) ==> now.has_storage(e)
        }
    }
}

/// No operation breaks the consistency of a world.
pub proof fn lemma_step_keeps_wf<V>(w: WorldView<V>, step: Step<V>)
    requires
        w.wf(),
        w.admits(step),
    ensures
        w.step(step).wf(),
{
    let next = w.step(step);
    assert forall|e: Entity| #[trigger]
        next.components.contains_key(e) <==> e.generation == 0 && next.is_alive(e) by {
        // The entry of `e` is new, gone, or as it was, and so is its liveness.
        assert(w.components.contains_key(e) <==> e.generation == 0 && w.is_alive(e));
    }
}

/// No history breaks the consistency of a world.
pub proof fn lemma_history_keeps_wf<V>(w: WorldView<V>, steps: Seq<Step<V>>)
    requires
        w.wf(),
        w.admits_all(steps),
    ensures
        w.after(steps).wf(),
    decreases steps.len(),
{
    if steps.len() > 0 {
        lemma_history_keeps_wf(w, steps.drop_last());
        lemma_step_keeps_wf(w.after(steps.drop_last()), steps.last());
    }
}

/// The handle that `spawn` issues is new and alive: its id was not
/// allocated before, it was not alive before, and right after the spawn it
/// is alive and has an entry without components.
pub proof fn lemma_spawned_is_alive<V>(w: WorldView<V>)
    requires
        w.wf(),
        w.admits(Step::Spawn),
    ensures
        w.next_entity().id == w.total_spawned(),
        !w.is_alive(w.next_entity()),
        w.spawn().is_alive(w.next_entity()),
        w.spawn().has_storage(w.next_entity()),
        w.spawn().components[w.next_entity()] == Map::<TypeTag, V>::empty(),
        forall|e: Entity| w.is_alive(e) ==> w.spawn().is_alive(e),
{
}

/// Ids are never reused: whatever happens after a spawn, the next spawn
/// issues a higher id.
pub proof fn lemma_ids_are_never_reused<V>(w: WorldView<V>, steps: Seq<Step<V>>)
    requires
        w.wf(),
        w.admits(Step::Spawn),
        w.spawn().admits_all(steps),
    ensures
        w.spawn().after(steps).next_entity().id > w.next_entity().id,
{
    lemma_step_keeps_wf(w, Step::Spawn);
    lemma_history_keeps_wf(w.spawn(), steps);
    lemma_history_total_spawned(w.spawn(), steps);
}

/// A successful despawn retires the handle.
pub proof fn lemma_despawn_retires<V>(w: WorldView<V>, e: Entity)
    requires
        w.is_alive(e),
        w.admits(Step::Despawn(e)),
    ensures
        w.despawn(e).is_retired(e),
        !w.despawn(e).is_alive(e),
        !w.despawn(e).has_storage(e),
{
}

/// A retired handle is not alive, and no operation brings it back: stored
/// generations never go down.
pub proof fn lemma_retired_stays_retired<V>(w: WorldView<V>, e: Entity, steps: Seq<Step<V>>)
    requires
        w.is_retired(e),
        w.admits_all(steps),
    ensures
        w.after(steps).is_retired(e),
        !w.after(steps).is_alive(e),
    decreases steps.len(),
{
    if steps.len() > 0 {
        lemma_retired_stays_retired(w, e, steps.drop_last());
    }
}

/// Once an alive handle is despawned, it is never alive again, whatever
/// happens to the world afterwards.
pub proof fn lemma_despawned_is_dead_forever<V>(w: WorldView<V>, e: Entity, steps: Seq<Step<V>>)
    requires
        w.is_alive(e),
        w.admits(Step::Despawn(e)),
        w.despawn(e).admits_all(steps),
    ensures
        !w.despawn(e).after(steps).is_alive(e),
{
    lemma_despawn_retires(w, e);
    lemma_retired_stays_retired(w.despawn(e), e, steps);
}

/// A handle that was despawned before, or whose id was never allocated, is
/// not alive.
pub proof fn lemma_stale_handle_is_dead<V>(w: WorldView<V>, e: Entity)
    requires
        w.is_retired(e) || e.id >= w.total_spawned(),
    ensures
        !w.is_alive(e),
{
}

/// A despawn of a handle that is not alive changes nothing.
pub proof fn lemma_stale_despawn_is_noop<V>(w: WorldView<V>, e: Entity)
    requires
        !w.is_alive(e),
    ensures
        w.despawn(e) == w,
{
}

/// An insert for a handle that is not alive changes nothing.
pub proof fn lemma_dead_insert_is_noop<V>(w: WorldView<V>, e: Entity, tag: TypeTag, value: V)
    requires
        !w.is_alive(e),
    ensures
        w.step(Step::InsertComponent(e, tag, value)) == w,
{
}

/// At any point of a history, the number of entities ever spawned is the
/// number at the start plus the number of spawns. It never goes down, and a
/// despawn does not change it.
pub proof fn lemma_history_total_spawned<V>(w: WorldView<V>, steps: Seq<Step<V>>)
    ensures
        w.after(steps).total_spawned() == w.total_spawned() + spawn_count(steps),
        w.after(steps).total_spawned() >= w.total_spawned(),
    decreases steps.len(),
{
    if steps.len() > 0 {
        lemma_history_total_spawned(w, steps.drop_last());
    }
}

/// What one operation does to the number of alive entities: a spawn raises
/// it by one, a successful despawn of an entity with storage lowers it by
/// one, and nothing else changes it.
pub proof fn lemma_step_alive_count<V>(w: WorldView<V>, step: Step<V>)
    requires
        w.wf(),
        w.admits(step),
        step matches Step::Despawn(e) ==> (w.is_alive(e) ==> w.has_storage(e)),
    ensures
        w.step(step).alive_count() == w.alive_count() + (if step is Spawn {
            1int
        } else {
            0int
        }) - (if step matches Step::Despawn(e) && w.is_alive(e) {
            1int
        } else {
            0int
        }),
{
    let before = w.components.dom();
    let after = w.step(step).components.dom();
    match step {
        Step::Spawn => {
            assert(!before.contains(w.next_entity()));
            assert(after =~= before.insert(w.next_entity()));
        },
        Step::Despawn(e) => {
            if w.is_alive(e) {
                assert(before.contains(e));
                assert(after =~= before.remove(e));
            }
        },
        _ => {
            assert(after =~= before);
        },
    }
}

/// At any point of a history, the number of alive entities is the number
/// at the start plus the spawns minus the successful despawns.
///
/// This is stated for histories in which every successful despawn is the
/// despawn of an entity with storage, as it is for every handle that
/// `spawn` issued.
pub proof fn lemma_history_alive_count<V>(w: WorldView<V>, steps: Seq<Step<V>>)
    requires
        w.wf(),
        w.admits_all(steps),
        despawns_stored_entities(w, steps),
    ensures
        w.after(steps).alive_count() == w.alive_count() + spawn_count(steps) - despawn_count(
            w,
            steps,
        ),
    decreases steps.len(),
{
    if steps.len() > 0 {
        let front = steps.drop_last();
        let last = steps.last();
        lemma_history_alive_count(w, front);
        lemma_history_keeps_wf(w, front);
        lemma_step_alive_count(w.after(front), last);
    }
}

/// In a world that starts empty, the number of entities ever spawned is the
/// number of spawns, and the number of alive entities is the number of
/// spawns minus the number of successful despawns.
pub proof fn lemma_counts_from_empty<V>(steps: Seq<Step<V>>)
    requires
        WorldView::<V>::empty().admits_all(steps),
        despawns_stored_entities(WorldView::<V>::empty(), steps),
    ensures
        WorldView::<V>::empty().after(steps).total_spawned() == spawn_count(steps),
        WorldView::<V>::empty().after(steps).alive_count() == spawn_count(steps) - despawn_count(
            WorldView::<V>::empty(),
            steps,
        ),
{
    let start = WorldView::<V>::empty();
    assert(start.components.dom() =~= Set::<Entity>::empty());
    lemma_history_total_spawned(start, steps);
    lemma_history_alive_count(start, steps);
}

/// A component that was inserted is the one that is read: after an insert
/// for an entity with storage, the entity holds the value under the tag;
/// and after a second insert under the same tag it holds the second value,
/// the first one being what the second insert replaces.
pub proof fn lemma_insert_then_get<V>(
    w: WorldView<V>,
    e: Entity,
    tag: TypeTag,
    first: V,
    second: V,
)
    requires
        w.wf(),
        w.has_storage(e),
    ensures
        w.insert_component(e, tag, first).is_alive(e),
        w.insert_component(e, tag, first).has_component(e, tag),
        w.insert_component(e, tag, first).component(e, tag) == first,
        w.insert_component(e, tag, first).insert_component(e, tag, second).has_component(e, tag),
        w.insert_component(e, tag, first).insert_component(e, tag, second).component(e, tag)
            == second,
{
}

/// An insert leaves every other component of every entity as it was.
pub proof fn lemma_insert_keeps_others<V>(
    w: WorldView<V>,
    e: Entity,
    tag: TypeTag,
    value: V,
    other: Entity,
    other_tag: TypeTag,
)
    requires
        w.has_storage(e),
        other != e || other_tag != tag,
    ensures
        w.insert_component(e, tag, value).has_component(other, other_tag) == w.has_component(
            other,
            other_tag,
        ),
        w.has_component(other, other_tag) ==> w.insert_component(e, tag, value).component(
            other,
            other_tag,
        ) == w.component(other, other_tag),
{
}

/// A component that was removed is gone: after an insert and a remove
/// under the same tag, the entity is still alive and holds nothing under
/// the tag.
pub proof fn lemma_remove_after_insert<V>(w: WorldView<V>, e: Entity, tag: TypeTag, value: V)
    requires
        w.wf(),
        w.has_storage(e),
    ensures
        w.insert_component(e, tag, value).remove_component(e, tag).is_alive(e),
        !w.insert_component(e, tag, value).remove_component(e, tag).has_component(e, tag),
{
}

/// With at least one tag asked for, the entities that hold a component
/// under every tag are alive: a query finds alive entities only, and every
/// alive entity that holds all of them.
pub proof fn lemma_has_all_means_alive<V>(w: WorldView<V>, e: Entity, tags: Seq<TypeTag>)
    requires
        w.wf(),
        tags.len() >= 1,
    ensures
        w.has_all(e, tags) <==> w.is_alive(e) && forall|i: int|
            0 <= i < tags.len() ==> w.has_component(e, #[trigger] tags[i]),
{
    if w.is_alive(e) && (forall|i: int|
        0 <= i < tags.len() ==> w.has_component(e, #[trigger] tags[i])) {
        assert(w.has_component(e, tags[0]));
    }
}

/// A resource that was inserted is the one that is read; a second insert
/// under the same tag replaces it.
pub proof fn lemma_insert_resource_then_get<V>(w: WorldView<V>, tag: TypeTag, first: V, second: V)
    ensures
        w.insert_resource(tag, first).resources.contains_key(tag),
        w.insert_resource(tag, first).resources[tag] == first,
        w.insert_resource(tag, first).insert_resource(tag, second).resources[tag] == second,
{
}

/// Whether no step of `steps` inserts a resource under `tag`.
pub open spec fn never_inserts_resource<V>(steps: Seq<Step<V>>, tag: TypeTag) -> bool {
    forall|i: int|
        0 <= i < steps.len() ==> (#[trigger] steps[i] matches Step::InsertResource(t, _) ==> t
            != tag)
}

/// A resource exists only if it was inserted: a history that never inserts
/// under `tag` leaves the presence of a resource under `tag` as it was. In
/// a world that started empty there is none.
pub proof fn lemma_resource_never_inserted<V>(w: WorldView<V>, steps: Seq<Step<V>>, tag: TypeTag)
    requires
        never_inserts_resource(steps, tag),
    ensures
        w.after(steps).resources.contains_key(tag) == w.resources.contains_key(tag),
        !WorldView::<V>::empty().resources.contains_key(tag),
    decreases steps.len(),
{
    if steps.len() > 0 {
        let front = steps.drop_last();
        assert(never_inserts_resource(front, tag)) by {
            assert forall|i: int| 0 <= i < front.len() implies #[trigger] front[i] == steps[i] by {}
        }
        lemma_resource_never_inserted(w, front, tag);
    }
}

} // verus!
