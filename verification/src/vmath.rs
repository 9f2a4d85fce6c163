//! Vectors of three components and boxes made of them.

pub mod collision;
pub mod coordinate;
pub mod vec3;
