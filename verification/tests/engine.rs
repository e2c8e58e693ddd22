use std::any::Any;

use pyreframe_engine::ecs::tag::TypeTag;
use pyreframe_engine::input::Input;
use pyreframe_engine::input::KeyboardState;
use pyreframe_engine::input::MouseState;
use pyreframe_engine::Engine;
use pyreframe_engine::World;

type Time = pyreframe_engine::time::Time<f32>;
type FrameDelta = pyreframe_engine::time::FrameDelta<f32>;
type System = fn(&mut World<Box<dyn Any>>);

const TIME: TypeTag = TypeTag(10);
const FRAME_DELTA: TypeTag = TypeTag(11);

fn no_input() -> Input<f32> {
    Input {
        keyboard: KeyboardState::default(),
        mouse: MouseState::default(),
    }
}

fn time_system(world: &mut World<Box<dyn Any>>) {
    let dt = world
        .get_resource(FRAME_DELTA)
        .expect("FrameDelta must exist")
        .downcast_ref::<FrameDelta>()
        .expect("FrameDelta must exist")
        .dt;
    let time = world
        .get_resource_mut(TIME)
        .expect("Time must exist")
        .downcast_mut::<Time>()
        .expect("Time must exist");
    time.advance(dt);
}

fn frame_delta(engine: &Engine<Box<dyn Any>, System>) -> Option<f32> {
    engine
        .world()
        .get_resource(FRAME_DELTA)
        .ok()
        .map(|delta| delta.downcast_ref::<FrameDelta>().unwrap().dt)
}

#[test]
fn new_engine_has_an_empty_world() {
    let engine: Engine<Box<dyn Any>, System> = Engine::new();
    assert_eq!(engine.world().total_spawned(), 0);
    assert_eq!(engine.world().alive_entity_count(), 0);
    assert!(engine.world().get_resource(FRAME_DELTA).is_err());
}

#[test]
fn default_engine_has_an_empty_world() {
    let engine: Engine<Box<dyn Any>, System> = Engine::default();
    assert_eq!(engine.world().total_spawned(), 0);
}

#[test]
fn tick_publishes_the_frame_delta() {
    let mut engine: Engine<Box<dyn Any>, System> = Engine::new();
    let out = engine.tick(no_input(), FRAME_DELTA, Box::new(FrameDelta { dt: 0.016 }));
    assert!(out.render_commands.is_empty());
    assert_eq!(frame_delta(&engine), Some(0.016));

    let out = engine.tick(no_input(), FRAME_DELTA, Box::new(FrameDelta { dt: 0.02 }));
    assert!(out.render_commands.is_empty());
    assert_eq!(frame_delta(&engine), Some(0.02));
}

#[test]
fn tick_runs_the_schedule_after_publishing_the_delta() {
    let mut engine: Engine<Box<dyn Any>, System> = Engine::new();
    engine.add_system(time_system);
    engine
        .world_mut()
        .insert_resource(TIME, Box::new(Time { delta: 0.0, frame: 0 }));

    engine.tick(no_input(), FRAME_DELTA, Box::new(FrameDelta { dt: 0.016 }));
    {
        let time = engine.world().get_resource(TIME).unwrap();
        let time = time.downcast_ref::<Time>().unwrap();
        assert_eq!(time.delta, 0.016);
        assert_eq!(time.frame, 1);
    }

    engine.tick(no_input(), FRAME_DELTA, Box::new(FrameDelta { dt: 0.02 }));
    let time = engine.world().get_resource(TIME).unwrap();
    let time = time.downcast_ref::<Time>().unwrap();
    assert_eq!(time.frame, 2);
    assert_eq!(time.delta, 0.02);
}

#[test]
fn run_does_not_touch_the_frame_delta() {
    fn spawner(world: &mut World<Box<dyn Any>>) {
        world.spawn();
    }
    let mut engine: Engine<Box<dyn Any>, System> = Engine::new();
    engine.add_system(spawner);
    engine.run();
    engine.run();
    assert_eq!(engine.world().total_spawned(), 2);
    assert_eq!(frame_delta(&engine), None);
}
