use bstream::vmath::collision::AxisBoundingBox;
use bstream::vmath::collision::BoundingBox;
use bstream::vmath::collision::RayTraceResult;
use bstream::vmath::coordinate::Facing;
use bstream::vmath::coordinate::Space;
use bstream::vmath::vec3::new;
use bstream::vmath::vec3::new_zero;
use bstream::vmath::vec3::Vec3;

struct Grid;

impl Space<i32> for Grid {
    fn direction(f: Facing) -> Option<Vec3<i32>> {
        match f {
            Facing::Up => Some(new(0, 1, 0)),
            Facing::Down => Some(new(0, -1, 0)),
            _ => None,
        }
    }
}

#[test]
fn vector_components() {
    let v = new(1, 2, 3);
    assert_eq!((v.x(), v.y(), v.z()), (1, 2, 3));
    assert_eq!(v, Vec3 { x: 1, y: 2, z: 3 });
    assert_eq!(new_zero(0u8), Vec3 { x: 0, y: 0, z: 0 });
    assert_eq!(Vec3::<i64>::default(), Vec3 { x: 0, y: 0, z: 0 });
}

#[test]
fn vector_arithmetic() {
    let a = new(1, 2, 3);
    let b = new(4, 5, 6);
    assert_eq!(a + b, new(5, 7, 9));
    assert_eq!(b - a, new(3, 3, 3));
    assert_eq!(a * 3, new(3, 6, 9));
    assert_eq!(a * b, new(-3, 6, -3));
    assert_eq!(new(1, 0, 0) * new(0, 1, 0), new(0, 0, 1));
    let mut c = a;
    c += b;
    assert_eq!(c, new(5, 7, 9));
    c -= a;
    assert_eq!(c, b);
    c *= 2;
    assert_eq!(c, new(8, 10, 12));
}

#[test]
fn vector_length_squared() {
    assert_eq!(new(1, 2, 3).length_sqr(), 14);
    assert_eq!(new(0u32, 0, 0).length_sqr(), 0);
    assert_eq!(new(-3i64, 4, 0).length_sqr(), 25);
    assert_eq!(new(1.5f32, 2.0, 0.0).length_sqr(), 6.25);
}

#[test]
fn box_scaled() {
    let b = AxisBoundingBox { min: new(-1, -2, -3), max: new(1, 2, 3) };
    assert_eq!(
        b.scale(3),
        AxisBoundingBox { min: new(-3, -6, -9), max: new(3, 6, 9) }
    );
}

#[test]
fn box_collision_is_the_test_along_each_axis() {
    let unit = AxisBoundingBox { min: new(0, 0, 0), max: new(2, 2, 2) };
    // the other box's low corner lies below this box's low corner and its
    // high corner, along x
    assert!(unit.collided(new(5, 0, 0), unit, new(1, 0, 0)));
    // along no axis
    assert!(!unit.collided(new(0, 0, 0), unit, new(0, 0, 0)));
    assert!(!unit.collided(new(0, 0, 0), unit, new(1, 1, 1)));
    // along z only
    assert!(unit.collided(new(0, 0, 3), unit, new(0, 0, 1)));
    // along y only
    assert!(unit.collided(new(0, 1, 0), unit, new(7, 0, 7)));
}

#[test]
fn space_directions_and_ray_results() {
    assert_eq!(Grid::direction(Facing::Up), Some(new(0, 1, 0)));
    assert_eq!(Grid::direction(Facing::North), None);
    let hit = RayTraceResult { plane: Facing::East, hit_vector: new(1u8, 2, 3) };
    assert_eq!(hit.plane, Facing::East);
    assert_eq!(hit.hit_vector.y(), 2);
}
