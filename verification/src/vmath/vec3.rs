//! Vectors of three components.

use vstd::prelude::*;
use std::ops::Add;
use std::ops::AddAssign;
use std::ops::Mul;
use std::ops::MulAssign;
use std::ops::Sub;
use std::ops::SubAssign;
use vstd::std_specs::ops::AddSpec;
use vstd::std_specs::ops::AddSpecImpl;
use vstd::std_specs::ops::MulSpec;
use vstd::std_specs::ops::MulSpecImpl;
use vstd::std_specs::ops::SubSpec;
use vstd::std_specs::ops::SubSpecImpl;

verus! {

/// A vector of three components.
#[derive(Copy, Debug, Eq, PartialEq, Hash)]
pub struct Vec3<T: Copy> {
    pub x: T,
    pub y: T,
    pub z: T,
}

impl<T: Copy> Clone for Vec3<T> {
    #[inline]
    fn clone(&self) -> (r: Self)
        ensures
            r == *self,
    {
        *self
    }
}

impl<T: Copy> Vec3<T> {
    /// The first component.
    #[inline]
    pub fn x(&self) -> (r: T)
        ensures
            r == self.x,
    {
        self.x
    }

    /// The second component.
    #[inline]
    pub fn y(&self) -> (r: T)
        ensures
            r == self.y,
    {
        self.y
    }

    /// The third component.
    #[inline]
    pub fn z(&self) -> (r: T)
        ensures
            r == self.z,
    {
        self.z
    }
}

impl<T: Default + Copy> Default for Vec3<T> {
    /// The vector whose components all are the default of `T`.
    #[inline]
    fn default() -> (v: Self)
        ensures
            call_ensures(T::default, (), v.x),
            call_ensures(T::default, (), v.y),
            call_ensures(T::default, (), v.z),
    {
        Vec3 { x: T::default(), y: T::default(), z: T::default() }
    }
}

/// The vector whose components all are `zero`.
#[inline]
pub fn new_zero<T: Copy>(zero: T) -> (v: Vec3<T>)
    ensures
        v == (Vec3 { x: zero, y: zero, z: zero }),
{
    Vec3 { x: zero, y: zero, z: zero }
}

/// The vector with the components `x`, `y` and `z`.
#[inline]
pub fn new<T: Copy>(x: T, y: T, z: T) -> (v: Vec3<T>)
    ensures
        v == (Vec3 { x, y, z }),
{
    Vec3 { x, y, z }
}

impl<T: Add<T, Output = T> + Copy> AddSpecImpl for Vec3<T> {
    open spec fn obeys_add_spec() -> bool {
        <T as AddSpec>::obeys_add_spec()
    }

    open spec fn add_req(self, rhs: Self) -> bool {
        self.x.add_req(rhs.x) && self.y.add_req(rhs.y) && self.z.add_req(rhs.z)
    }

    open spec fn add_spec(self, rhs: Self) -> Self {
        Vec3 { x: self.x.add_spec(rhs.x), y: self.y.add_spec(rhs.y), z: self.z.add_spec(rhs.z) }
    }
}

impl<T: Add<T, Output = T> + Copy> Add for Vec3<T> {
    type Output = Self;

    /// The sum, component by component.
    #[inline]
    fn add(self, rhs: Self) -> Self {
        Vec3 { x: self.x() + rhs.x(), y: self.y() + rhs.y(), z: self.z() + rhs.z() }
    }
}

impl<T: Sub<T, Output = T> + Copy> SubSpecImpl for Vec3<T> {
    open spec fn obeys_sub_spec() -> bool {
        <T as SubSpec>::obeys_sub_spec()
    }

    open spec fn sub_req(self, rhs: Self) -> bool {
        self.x.sub_req(rhs.x) && self.y.sub_req(rhs.y) && self.z.sub_req(rhs.z)
    }

    open spec fn sub_spec(self, rhs: Self) -> Self {
        Vec3 { x: self.x.sub_spec(rhs.x), y: self.y.sub_spec(rhs.y), z: self.z.sub_spec(rhs.z) }
    }
}

impl<T: Sub<T, Output = T> + Copy> Sub for Vec3<T> {
    type Output = Self;

    /// The difference, component by component.
    #[inline]
    fn sub(self, rhs: Self) -> Self {
        Vec3 { x: self.x() - rhs.x(), y: self.y() - rhs.y(), z: self.z() - rhs.z() }
    }
}

impl<T: Mul<T, Output = T> + Sub<T, Output = T> + Copy> MulSpecImpl for Vec3<T> {
    open spec fn obeys_mul_spec() -> bool {
        <T as MulSpec>::obeys_mul_spec() && <T as SubSpec>::obeys_sub_spec()
    }

    open spec fn mul_req(self, rhs: Self) -> bool {
        &&& <T as MulSpec>::obeys_mul_spec()
        &&& self.y.mul_req(rhs.z)
        &&& self.z.mul_req(rhs.y)
        &&& self.z.mul_req(rhs.x)
        &&& self.x.mul_req(rhs.z)
        &&& self.x.mul_req(rhs.y)
        &&& self.y.mul_req(rhs.x)
        &&& self.y.mul_spec(rhs.z).sub_req(self.z.mul_spec(rhs.y))
        &&& self.z.mul_spec(rhs.x).sub_req(self.x.mul_spec(rhs.z))
        &&& self.x.mul_spec(rhs.y).sub_req(self.y.mul_spec(rhs.x))
    }

    open spec fn mul_spec(self, rhs: Self) -> Self {
        Vec3 {
            x: self.y.mul_spec(rhs.z).sub_spec(self.z.mul_spec(rhs.y)),
            y: self.z.mul_spec(rhs.x).sub_spec(self.x.mul_spec(rhs.z)),
            z: self.x.mul_spec(rhs.y).sub_spec(self.y.mul_spec(rhs.x)),
        }
    }
}

impl<T: Mul<T, Output = T> + Sub<T, Output = T> + Copy> Mul for Vec3<T> {
    type Output = Self;

    /// The cross product.
    #[inline]
    fn mul(self, rhs: Self) -> Self {
        Vec3 {
            x: self.y() * rhs.z() - self.z() * rhs.y(),
            y: self.z() * rhs.x() - self.x() * rhs.z(),
            z: self.x() * rhs.y() - self.y() * rhs.x(),
        }
    }
}

impl<T: Mul<T, Output = T> + Copy> MulSpecImpl<T> for Vec3<T> {
    open spec fn obeys_mul_spec() -> bool {
        <T as MulSpec>::obeys_mul_spec()
    }

    open spec fn mul_req(self, rhs: T) -> bool {
        self.x.mul_req(rhs) && self.y.mul_req(rhs) && self.z.mul_req(rhs)
    }

    open spec fn mul_spec(self, rhs: T) -> Self {
        Vec3 { x: self.x.mul_spec(rhs), y: self.y.mul_spec(rhs), z: self.z.mul_spec(rhs) }
    }
}

impl<T: Mul<T, Output = T> + Copy> Mul<T> for Vec3<T> {
    type Output = Self;

    /// The vector scaled by `rhs`.
    #[inline]
    fn mul(self, rhs: T) -> Self {
        Vec3 { x: self.x() * rhs, y: self.y() * rhs, z: self.z() * rhs }
    }
}

impl<T: Add<T, Output = T> + Copy> AddAssign for Vec3<T> {
    /// Adds `rhs` to the vector, component by component.
    #[inline]
    fn add_assign(&mut self, rhs: Self)
        requires
            old(self).x.add_req(rhs.x),
            old(self).y.add_req(rhs.y),
            old(self).z.add_req(rhs.z),
        ensures
            <T as AddSpec>::obeys_add_spec() ==> *final(self) == (Vec3 {
                x: old(self).x.add_spec(rhs.x),
                y: old(self).y.add_spec(rhs.y),
                z: old(self).z.add_spec(rhs.z),
            }),
    {
        self.x = self.x + rhs.x;
        self.y = self.y + rhs.y;
        self.z = self.z + rhs.z;
    }
}

impl<T: Sub<T, Output = T> + Copy> SubAssign for Vec3<T> {
    /// Takes `rhs` from the vector, component by component.
    #[inline]
    fn sub_assign(&mut self, rhs: Self)
        requires
            old(self).x.sub_req(rhs.x),
            old(self).y.sub_req(rhs.y),
            old(self).z.sub_req(rhs.z),
        ensures
            <T as SubSpec>::obeys_sub_spec() ==> *final(self) == (Vec3 {
                x: old(self).x.sub_spec(rhs.x),
                y: old(self).y.sub_spec(rhs.y),
                z: old(self).z.sub_spec(rhs.z),
            }),
    {
        self.x = self.x - rhs.x;
        self.y = self.y - rhs.y;
        self.z = self.z - rhs.z;
    }
}

impl<T: Mul<T, Output = T> + Copy> MulAssign<T> for Vec3<T> {
    /// Scales the vector by `rhs`.
    fn mul_assign(&mut self, rhs: T)
        requires
            old(self).x.mul_req(rhs),
            old(self).y.mul_req(rhs),
            old(self).z.mul_req(rhs),
        ensures
            <T as MulSpec>::obeys_mul_spec() ==> *final(self) == (Vec3 {
                x: old(self).x.mul_spec(rhs),
                y: old(self).y.mul_spec(rhs),
                z: old(self).z.mul_spec(rhs),
            }),
    {
        self.x = self.x * rhs;
        self.y = self.y * rhs;
        self.z = self.z * rhs;
    }
}

impl<T: Mul<T, Output = T> + Add<T, Output = T> + Copy> Vec3<T> {
    /// The square of the length, as the arithmetic of `T` gives it.
    pub open spec fn spec_length_sqr(self) -> T {
        self.x.mul_spec(self.x).add_spec(self.y.mul_spec(self.y)).add_spec(
            self.z.mul_spec(self.z),
        )
    }

    /// Whether the square of the length can be computed in `T`.
    pub open spec fn length_sqr_req(self) -> bool {
        &&& <T as MulSpec>::obeys_mul_spec()
        &&& <T as AddSpec>::obeys_add_spec()
        &&& self.x.mul_req(self.x)
        &&& self.y.mul_req(self.y)
        &&& self.z.mul_req(self.z)
        &&& self.x.mul_spec(self.x).add_req(self.y.mul_spec(self.y))
        &&& self.x.mul_spec(self.x).add_spec(self.y.mul_spec(self.y)).add_req(
            self.z.mul_spec(self.z),
        )
    }

    /// The square of the length: the sum of the squares of the components.
    #[inline]
    pub fn length_sqr(&self) -> (r: T)
        requires
            self.length_sqr_req(),
        ensures
            r == self.spec_length_sqr(),
    {
        self.x() * self.x() + self.y() * self.y() + self.z() * self.z()
    }
}

} // verus!
