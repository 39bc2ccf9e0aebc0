//! A first-person voxel renderer's core, verified: a wrap-around voxel world, the
//! grid-walking ray traversal that finds the first solid cell along a ray, texture and
//! color mapping of hits, block removal and placement through the same traversal, and the
//! packed 2-bit framebuffer. Positions, directions and distances are 16.16 fixed point.

pub mod vec3;
pub mod rng;
pub mod grid;
pub mod raycast;
pub mod shade;
pub mod game;
pub mod framebuffer;
pub mod input;
