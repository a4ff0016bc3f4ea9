//! A ray-casting renderer over a tile grid, in exact fixed-point arithmetic.
//!
//! For every screen column a ray is marched through the grid to the first
//! occupied cell; the perpendicular distance of that hit gives the height of a
//! vertical wall strip, which is shaded flat or sampled from a texture. A
//! movement controller advances the viewer with axis-separated collision
//! against the same grid.
//!
//! All quantities are integers: coordinates and distances count units of
//! 2^-32 of a grid cell, so that every comparison the traversal makes is exact.
//!
//! - [`fixed`] and [`vector`]: the numbers, and the vectors of the plane;
//! - [`grid`], [`texture`], [`pixel`] and [`frame`]: the map, the textures, and
//!   the picture;
//! - [`camera`]: the viewer and the movement controller;
//! - [`raycast`]: the ray caster, and [`geometry`]: what its traversal means
//!   for the ray;
//! - [`render`]: the column renderer;
//! - [`session`]: a map, a camera and a screen together, from frame to frame.

pub mod fixed;
pub mod vector;
pub mod grid;
pub mod camera;
pub mod raycast;
pub mod geometry;
pub mod pixel;
pub mod texture;
pub mod frame;
pub mod render;
pub mod session;
