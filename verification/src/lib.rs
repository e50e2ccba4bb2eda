//! A grid raycaster: a pseudo-3D renderer that casts one ray per screen
//! column across a 2D occupancy grid, finds the first occupied cell on each
//! ray, and projects the hit distance into an on-screen wall-slice height.
//!
//! All geometry is carried out in fixed-point integer arithmetic: angles are
//! binary angle units (a full turn is `angle::FULL_TURN` units) and trigonometric
//! values are scaled by `angle::TRIG_ONE`.

pub mod angle;
pub mod camera;
pub mod canvas;
pub mod cast;
pub mod draw;
pub mod grid;
pub mod project;
pub mod texture;
