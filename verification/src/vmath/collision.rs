//! Boxes along the axes.

use vstd::prelude::*;
use std::ops::Add;
use std::ops::Mul;
use vstd::std_specs::cmp::PartialOrdIs;
use vstd::std_specs::cmp::PartialOrdSpec;
use vstd::std_specs::ops::AddSpec;
use vstd::std_specs::ops::MulSpec;
use crate::vmath::coordinate::Facing;
use crate::vmath::vec3::Vec3;

verus! {

/// Where a ray met a box.
pub struct RayTraceResult<T: Copy> {
    pub plane: Facing,
    pub hit_vector: Vec3<T>,
}

/// A box that can be held against another and scaled.
pub trait BoundingBox<T: Copy>: Sized {
    /// Whether the arithmetic of `T` can hold the two boxes at their places.
    spec fn collided_req(&self, self_pos: Vec3<T>, bb: Self, bb_pos: Vec3<T>) -> bool;

    /// Whether the box at `self_pos` counts as touched by `bb` at `bb_pos`.
    spec fn collides(&self, self_pos: Vec3<T>, bb: Self, bb_pos: Vec3<T>) -> bool;

    /// Whether the arithmetic of `T` can scale the box by `multiplier`.
    spec fn scale_req(&self, multiplier: T) -> bool;

    /// The box scaled by `multiplier`.
    spec fn scaled(&self, multiplier: T) -> Self;

    /// Whether the box at `self_pos` counts as touched by `bb` at `bb_pos`.
    fn collided(&self, self_pos: Vec3<T>, bb: Self, bb_pos: Vec3<T>) -> (r: bool)
        requires
            self.collided_req(self_pos, bb, bb_pos),
        ensures
            r == self.collides(self_pos, bb, bb_pos),
    ;

    /// The box scaled by `multiplier`.
    fn scale(&self, multiplier: T) -> (r: Self)
        requires
            self.scale_req(multiplier),
        ensures
            r == self.scaled(multiplier),
    ;
}

/// A box along the axes, between two corners.
#[derive(Debug, Copy, Eq, PartialEq)]
pub struct AxisBoundingBox<T: Copy> {
    pub min: Vec3<T>,
    pub max: Vec3<T>,
}

impl<T: Copy> Clone for AxisBoundingBox<T> {
    fn clone(&self) -> (r: Self)
        ensures
            r == *self,
    {
        *self
    }
}

/// Whether the comparisons of `T` are those of its specification.
pub open spec fn ordered<T: PartialOrd<T>>() -> bool {
    T::obeys_partial_cmp_spec()
}

/// Whether `low` lies above `other` and `other` below `high`: the test that
/// `collided` makes along one axis.
pub open spec fn axis_test<T: PartialOrd<T>>(low: T, high: T, other: T) -> bool {
    low.is_gt(&other) && other.is_lt(&high)
}

impl<T: Copy + Mul<T, Output = T> + Add<T, Output = T> + PartialOrd<T>> BoundingBox<
    T,
> for AxisBoundingBox<T> {
    open spec fn collided_req(&self, self_pos: Vec3<T>, bb: Self, bb_pos: Vec3<T>) -> bool {
        &&& <T as AddSpec>::obeys_add_spec()
        &&& ordered::<T>()
        &&& self.min.add_req(self_pos)
        &&& self.max.add_req(self_pos)
        &&& bb.min.add_req(bb_pos)
        &&& bb.max.add_req(bb_pos)
    }

    open spec fn collides(&self, self_pos: Vec3<T>, bb: Self, bb_pos: Vec3<T>) -> bool {
        let low = self.min.add_spec(self_pos);
        let high = self.max.add_spec(self_pos);
        let other = bb.min.add_spec(bb_pos);
        ||| axis_test(low.x, high.x, other.x)
        ||| axis_test(low.y, high.y, other.y)
        ||| axis_test(low.z, high.z, other.z)
    }

    open spec fn scale_req(&self, multiplier: T) -> bool {
        &&& <T as MulSpec>::obeys_mul_spec()
        &&& self.min.mul_req(multiplier)
        &&& self.max.mul_req(multiplier)
    }

    open spec fn scaled(&self, multiplier: T) -> Self {
        AxisBoundingBox { min: self.min.mul_spec(multiplier), max: self.max.mul_spec(multiplier) }
    }

    fn collided(&self, self_pos: Vec3<T>, bb: Self, bb_pos: Vec3<T>) -> (r: bool) {
        let n_self = AxisBoundingBox { min: self.min + self_pos, max: self.max + self_pos };
        let n_bb = AxisBoundingBox { min: bb.min + bb_pos, max: bb.max + bb_pos };
        if n_self.min.x() > n_bb.min.x() && n_bb.min.x() < n_self.max.x() {
            return true;
        }
        if n_self.min.y() > n_bb.min.y() && n_bb.min.y() < n_self.max.y() {
            return true;
        }
        if n_self.min.z() > n_bb.min.z() && n_bb.min.z() < n_self.max.z() {
            return true;
        }
        false
    }

    fn scale(&self, multiplier: T) -> (r: Self) {
        AxisBoundingBox { min: self.min * multiplier, max: self.max * multiplier }
    }
}

} // verus!
