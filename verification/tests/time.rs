type Time = pyreframe_engine::time::Time<f32>;

#[test]
fn test_time_advance() {
    let mut time = Time::default();
    assert_eq!(time.delta, 0.0);
    assert_eq!(time.frame, 0);

    time.advance(0.016);
    assert_eq!(time.delta, 0.016);
    assert_eq!(time.frame, 1);

    time.advance(0.033);
    assert_eq!(time.delta, 0.033);
    assert_eq!(time.frame, 2);
}

#[test]
fn default_time_is_before_the_first_frame() {
    let time = Time::default();
    assert_eq!(time.delta, 0.0);
    assert_eq!(time.frame, 0);
}

#[test]
fn default_frame_delta_is_zero() {
    let delta: pyreframe_engine::time::FrameDelta<f32> = Default::default();
    assert_eq!(delta.dt, 0.0);
}

#[test]
fn advance_counts_every_frame() {
    let mut time = Time { delta: 0.0, frame: 41 };
    time.advance(0.25);
    assert_eq!(time.frame, 42);
    assert_eq!(time.delta, 0.25);
}
