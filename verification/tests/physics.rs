use bstream::physics::Interpolator;
use bstream::physics::LinearInterpolator;
use bstream::physics::MovingEntity;
use bstream::physics::Object;
use bstream::physics::Space;
use bstream::vmath::vec3::new;
use bstream::vmath::vec3::Vec3;

struct Ticks;

impl Space for Ticks {
    type ContinuousMeasure = i64;
    type DiscreteTimeMeasure = u64;
    type Position = Vec3<i64>;

    fn per_tick() -> i64 {
        50
    }

    fn per_second() -> u64 {
        20
    }
}

struct Seconds;

impl Space for Seconds {
    type ContinuousMeasure = f32;
    type DiscreteTimeMeasure = u64;
    type Position = Vec3<f32>;

    fn per_tick() -> f32 {
        1.0 / 20.0
    }

    fn per_second() -> u64 {
        20
    }
}

#[test]
fn linear_interpolation_of_numbers() {
    // v_1 + (v_2 - v_1) * (dt / t), in whole numbers
    assert_eq!(LinearInterpolator::interpolate::<i64, Ticks>(10, 30, 1, 2), 50);
    assert_eq!(LinearInterpolator::interpolate::<i64, Ticks>(10, 30, 2, 1), 10);
    assert_eq!(LinearInterpolator::interpolate::<f32, Seconds>(1.0, 3.0, 4.0, 1.0), 1.5);
}

#[test]
fn linear_interpolation_of_vectors() {
    let a = new(0.0f32, 400.0, 0.0);
    let b = new(0.0f32, 380.0, 8.0);
    let got = LinearInterpolator::interpolate::<Vec3<f32>, Seconds>(a, b, 0.5, 0.25);
    assert_eq!(got, new(0.0, 390.0, 4.0));
    let got = LinearInterpolator::interpolate::<Vec3<i64>, Ticks>(
        new(1, 2, 3),
        new(3, 6, 9),
        Ticks::per_tick(),
        100,
    );
    assert_eq!(got, new(5, 10, 15));
    assert_eq!(Ticks::per_second(), 20);
    assert_eq!(Seconds::per_tick(), 0.05);
}

#[test]
fn entity_starts_at_rest() {
    let mut e = MovingEntity::<Ticks>::default();
    assert_eq!(e.current_tick(), 0);
    assert_eq!(*e.position(), new(0, 0, 0));
    assert_eq!(*e.delta_position(), new(0, 0, 0));
    assert_eq!(*e.yaw(), 0);
    assert_eq!(*e.delta_yaw(), 0);
    assert_eq!(*e.pitch(), 0);
    assert_eq!(*e.delta_pitch(), 0);
}

#[test]
fn entity_moves_when_the_tick_ends() {
    let mut e = MovingEntity::<Ticks>::default();
    *e.position() = new(100, 400, 0);
    *e.delta_position() = new(1, -20, 3);
    *e.yaw() = 7;
    *e.delta_pitch() = 9;
    e.end_previous_tick();
    assert_eq!(e.current_tick(), 1);
    assert_eq!(*e.position(), new(101, 380, 3));
    assert_eq!(*e.delta_position(), new(0, 0, 0));
    assert_eq!(*e.yaw(), 7);
    assert_eq!(*e.delta_pitch(), 9);
    e.delta_position().y -= 20;
    e.end_previous_tick();
    e.end_previous_tick();
    assert_eq!(e.current_tick(), 3);
    assert_eq!(*e.position(), new(101, 360, 3));
}

#[test]
fn entity_in_floating_point() {
    let mut e = MovingEntity::<Seconds>::default();
    e.position().y = 400.0;
    e.delta_position().y -= 20.0;
    *e.pitch() = 0.5;
    *e.delta_yaw() = 0.25;
    e.end_previous_tick();
    assert_eq!(*e.position(), new(0.0, 380.0, 0.0));
    assert_eq!(e.current_tick(), 1);
    assert_eq!(*e.pitch(), 0.5);
    assert_eq!(*e.delta_yaw(), 0.25);
}
