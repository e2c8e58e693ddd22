//! Schedules: ordered lists of systems.
//!
//! A system is a callable that takes exclusive access to a world. A
//! schedule runs its systems one after the other, in the order in which
//! they were added, each exactly once per run. That order is the only
//! ordering there is: a system that needs what another one produces is
//! added after it.

use vstd::prelude::*;
use crate::ecs::world::World;

verus! {

/// A sequence of systems, run in the order in which they were added.
pub struct Schedule<S> {
    systems: Vec<S>,
}

impl<S> Schedule<S> {
    /// The systems of the schedule, in order.
    pub closed spec fn view(&self) -> Seq<S> {
        self.systems@
    }

    /// Creates an empty schedule.
    pub fn new() -> (schedule: Schedule<S>)
        ensures
            schedule@ == Seq::<S>::empty(),
    {
        Schedule { systems: Vec::new() }
    }

    /// Adds a system to the end of the schedule.
    pub fn add_system(&mut self, system: S)
        ensures
            final(self)@ == old(self)@.push(system),
    {
        self.systems.push(system);
    }

    /// Runs every system once on `world`, in the order in which they were
    /// added, each one after the one before it has returned.
    ///
    /// The worlds that the systems are called on form a chain: the first
    /// system is called on the world as it was handed in, each later one on
    /// the world as the one before it left it, and the last one leaves the
    /// world as it is handed back. Each system must accept the world at its
    /// turn, whatever the systems before it did within their contracts.
    pub fn run<V>(&self, world: &mut World<V>) where S: Fn(&mut World<V>)
        requires
            forall|calls: Seq<&mut World<V>>|
                #![trigger calls.len()]
                {
                    &&& 1 <= calls.len() <= self@.len()
                    &&& *calls[0] == *old(world)
                    &&& forall|j: int|
                        0 <= j < calls.len() - 1 ==> call_ensures(
                            self@[j],
                            (#[trigger] calls[j],),
                            (),
                        ) && *final(calls[j]) == *calls[j + 1]
                } ==> call_requires(self@[calls.len() - 1], (calls[calls.len() - 1],)),
        ensures
            exists|calls: Seq<&mut World<V>>|
                #![trigger calls.len()]
                {
                    &&& calls.len() == self@.len()
                    &&& forall|j: int|
                        0 <= j < calls.len() ==> call_ensures(self@[j], (#[trigger] calls[j],), ())
                    &&& forall|j: int|
                        0 <= j < calls.len() - 1 ==> *final(#[trigger] calls[j]) == *calls[j + 1]
                    &&& calls.len() == 0 ==> *final(world) == *old(world)
                    &&& calls.len() > 0 ==> *calls[0] == *old(world) && *final(calls.last())
                        == *final(world)
                },
    {
        let mut i: usize = 0;
        // No call was made yet.
        assert(Seq::<&mut World<V>>::empty().len() == 0);
        while i < self.systems.len()
            invariant
                i <= self.systems@.len(),
                exists|calls: Seq<&mut World<V>>|
                    #![trigger calls.len()]
                    {
                        &&& calls.len() == i
                        &&& forall|j: int|
                            0 <= j < calls.len() ==> call_ensures(
                                self@[j],
                                (#[trigger] calls[j],),
                                (),
                            )
                        &&& forall|j: int|
                            0 <= j < calls.len() - 1 ==> *final(#[trigger] calls[j]) == *calls[j
                                + 1]
                        &&& calls.len() == 0 ==> *world == *old(world)
                        &&& calls.len() > 0 ==> *calls[0] == *old(world) && *final(calls.last())
                            == *world
                    },
                forall|calls: Seq<&mut World<V>>|
                    #![trigger calls.len()]
                    {
                        &&& 1 <= calls.len() <= self@.len()
                        &&& *calls[0] == *old(world)
                        &&& forall|j: int|
                            0 <= j < calls.len() - 1 ==> call_ensures(
                                self@[j],
                                (#[trigger] calls[j],),
                                (),
                            ) && *final(calls[j]) == *calls[j + 1]
                    } ==> call_requires(self@[calls.len() - 1], (calls[calls.len() - 1],)),
            decreases self.systems@.len() - i,
        {
            let ghost before = *world;
            let system = &self.systems[i];
            // The calls made so far, as the invariant gives them.
            let ghost done = choose|calls: Seq<&mut World<V>>|
                #![trigger calls.len()]
                {
                    &&& calls.len() == i
                    &&& forall|j: int|
                        0 <= j < calls.len() ==> call_ensures(self@[j], (#[trigger] calls[j],), ())
                    &&& forall|j: int|
                        0 <= j < calls.len() - 1 ==> *final(#[trigger] calls[j]) == *calls[j + 1]
                    &&& calls.len() == 0 ==> before == *old(world)
                    &&& calls.len() > 0 ==> *calls[0] == *old(world) && *final(calls.last())
                        == before
                };
            assert forall|w: &mut World<V>| *w == before implies call_requires(
                self@[i as int],
                (w,),
            ) by {
                // One more call on the world as it is now extends the chain.
                assert(done.push(w).len() == i + 1);
            }
            system(world);
            proof {
                let call = choose|w: &mut World<V>|
                    *w == before && *final(w) == *world && call_ensures(*system, (w,), ());
                assert(done.push(call).len() == i + 1);
            }
            i = i + 1;
        }
    }
}

} // verus!
