//! An offline, physically-inspired renderer verified with Verus.
//!
//! Geometry, shading and image assembly are carried out in fixed-point
//! arithmetic (16 binary fraction digits) so that every computation has an
//! exact integer meaning that contracts can state and proofs can pin down.

pub mod fixed;
pub mod vec3;
pub mod ray;
pub mod aabb;
pub mod trig;
pub mod hittable;
pub mod sphere;
pub mod aarect;
pub mod rng;
pub mod cube;
pub mod constant_medium;
pub mod bvh;
pub mod hittable_list;
pub mod perlin;
pub mod texture;
pub mod vec3_ops;
pub mod material;
pub mod camera;
pub mod color;
pub mod render;
pub mod laws;
pub mod rtw;
