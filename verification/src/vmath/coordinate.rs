//! Directions in space.

use vstd::prelude::*;
use crate::vmath::vec3::Vec3;

verus! {

/// One of the six directions along the axes.
#[derive(Clone, Copy, Debug, PartialEq, Eq, Structural)]
pub enum Facing {
    Up,
    Down,
    North,
    East,
    West,
    South,
}

/// A space that knows which way each direction points.
pub trait Space<T: Copy>: Sized {
    /// The vector that points in the direction `f`, where the space has one.
    fn direction(f: Facing) -> Option<Vec3<T>>;
}

} // verus!
