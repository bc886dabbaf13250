//! The adaptive coordinate system of an interactive plotting view, verified:
//! zoom smoothing and scroll input, zoom-driven axis ranges and tick and grid
//! spacing, their projection to screen-space segments and labels, and the
//! plain-data objects of a scene.
//!
//! Every quantity is a fixed-point `i64` counted in millionths (see
//! [`fixed::UNIT`]); times are microseconds.

pub mod animation;
pub mod axes;
pub mod camera;
pub mod coordinate_system;
pub mod export;
pub mod fixed;
pub mod function_graph;
pub mod grid;
pub mod objects;
pub mod performance;
pub mod render;
pub mod scene;
pub mod text;
