//! The engine: a world and a schedule, driven frame by frame.

use vstd::prelude::*;
use crate::ecs::tag::TypeTag;
use crate::ecs::world::World;
use crate::ecs::world::WorldView;
use crate::input::Input;
use crate::render::RenderCommand;
use crate::runtime::frame::FrameOutput;
use crate::runtime::schedule::Schedule;

verus! {

/// Owns the world and the schedule and runs the schedule against the world.
///
/// `V` is the payload type of the world and `S` the type of a system.
pub struct Engine<V, S> {
    world: World<V>,
    schedule: Schedule<S>,
}

/// What an engine holds.
pub struct EngineView<V, S> {
    /// The world.
    pub world: World<V>,
    /// The systems of the schedule, in the order in which they run.
    pub systems: Seq<S>,
}

impl<V, S> Engine<V, S> {
    /// What the engine holds.
    pub closed spec fn view(&self) -> EngineView<V, S> {
        EngineView { world: self.world, systems: self.schedule@ }
    }

    /// Creates an engine with an empty world and an empty schedule.
    pub fn new() -> (engine: Engine<V, S>)
        ensures
            engine@.world.wf(),
            engine@.world@ == WorldView::<V>::empty(),
            engine@.systems == Seq::<S>::empty(),
    {
        Engine { world: World::new(), schedule: Schedule::new() }
    }

    /// Adds a system to the end of the schedule.
    pub fn add_system(&mut self, system: S)
        ensures
            final(self)@.world == old(self)@.world,
            final(self)@.systems == old(self)@.systems.push(system),
    {
        self.schedule.add_system(system);
    }

    /// The world, for reading.
    pub fn world(&self) -> (world: &World<V>)
        ensures
            *world == self@.world,
    {
        &self.world
    }

    /// The world, for setting it up between frames. The schedule is not
    /// touched.
    pub fn world_mut(&mut self) -> (world: &mut World<V>)
        ensures
            *world == old(self)@.world,
            final(self)@.world == *final(world),
            final(self)@.systems == old(self)@.systems,
    {
        &mut self.world
    }

    /// Runs every system of the schedule once, in order, on the world.
    /// Nothing else is touched and nothing is returned.
    ///
    /// The systems are called in a chain, as `Schedule::run` describes,
    /// and each must accept the world at its turn.
    pub fn run(&mut self) where S: Fn(&mut World<V>)
        requires
            forall|calls: Seq<&mut World<V>>|
                #![trigger calls.len()]
                {
                    &&& 1 <= calls.len() <= old(self)@.systems.len()
                    &&& *calls[0] == old(self)@.world
                    &&& forall|j: int|
                        0 <= j < calls.len() - 1 ==> call_ensures(
                            old(self)@.systems[j],
                            (#[trigger] calls[j],),
                            (),
                        ) && *final(calls[j]) == *calls[j + 1]
                } ==> call_requires(
                    old(self)@.systems[calls.len() - 1],
                    (calls[calls.len() - 1],),
                ),
        ensures
            final(self)@.systems == old(self)@.systems,
            exists|calls: Seq<&mut World<V>>|
                #![trigger calls.len()]
                {
                    &&& calls.len() == old(self)@.systems.len()
                    &&& forall|j: int|
                        0 <= j < calls.len() ==> call_ensures(
                            old(self)@.systems[j],
                            (#[trigger] calls[j],),
                            (),
                        )
                    &&& forall|j: int|
                        0 <= j < calls.len() - 1 ==> *final(#[trigger] calls[j]) == *calls[j + 1]
                    &&& calls.len() == 0 ==> final(self)@.world == old(self)@.world
                    &&& calls.len() > 0 ==> *calls[0] == old(self)@.world && *final(calls.last())
                        == final(self)@.world
                },
    {
        self.schedule.run(&mut self.world);
    }

    /// Processes one frame: stores `frame_delta` as the resource under
    /// `delta_tag`, replacing the one of the frame before; then runs every
    /// system of the schedule once, in order; then returns the output of
    /// the frame, which holds no instruction.
    ///
    /// `input` is the input snapshot of the frame. The engine does not look
    /// into it.
    pub fn tick<F>(&mut self, input: Input<F>, delta_tag: TypeTag, frame_delta: V) -> (out:
        FrameOutput<F>) where S: Fn(&mut World<V>)
        requires
            old(self)@.world.wf(),
            forall|calls: Seq<&mut World<V>>|
                #![trigger calls.len()]
                {
                    &&& 1 <= calls.len() <= old(self)@.systems.len()
                    &&& calls[0].wf()
                    &&& calls[0]@ == old(self)@.world@.insert_resource(delta_tag, frame_delta)
                    &&& forall|j: int|
                        0 <= j < calls.len() - 1 ==> call_ensures(
                            old(self)@.systems[j],
                            (#[trigger] calls[j],),
                            (),
                        ) && *final(calls[j]) == *calls[j + 1]
                } ==> call_requires(
                    old(self)@.systems[calls.len() - 1],
                    (calls[calls.len() - 1],),
                ),
        ensures
            out.render_commands@ == Seq::<RenderCommand<F>>::empty(),
            final(self)@.systems == old(self)@.systems,
            exists|calls: Seq<&mut World<V>>|
                #![trigger calls.len()]
                {
                    &&& calls.len() == old(self)@.systems.len()
                    &&& forall|j: int|
                        0 <= j < calls.len() ==> call_ensures(
                            old(self)@.systems[j],
                            (#[trigger] calls[j],),
                            (),
                        )
                    &&& forall|j: int|
                        0 <= j < calls.len() - 1 ==> *final(#[trigger] calls[j]) == *calls[j + 1]
                    &&& calls.len() == 0 ==> {
                        &&& final(self)@.world.wf()
                        &&& final(self)@.world@ == old(self)@.world@.insert_resource(
                            delta_tag,
                            frame_delta,
                        )
                    }
                    &&& calls.len() > 0 ==> {
                        &&& calls[0].wf()
                        &&& calls[0]@ == old(self)@.world@.insert_resource(delta_tag, frame_delta)
                        &&& *final(calls.last()) == final(self)@.world
                    }
                },
    {
        let _ = self.world.insert_resource(delta_tag, frame_delta);
        self.schedule.run(&mut self.world);
        FrameOutput { render_commands: Vec::new() }
    }
}

impl<V, S> Default for Engine<V, S> {
    /// The engine with an empty world and an empty schedule, as
    /// `Engine::new` makes it.
    fn default() -> (engine: Engine<V, S>)
        ensures
            engine@.world.wf(),
            engine@.world@ == WorldView::<V>::empty(),
            engine@.systems == Seq::<S>::empty(),
    {
        Engine::new()
    }
}

} // verus!
