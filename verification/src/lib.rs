//! Display trees, their layout into pixel rectangles, and the two ways of
//! making a window occupy a computed rectangle: setting its geometry in a
//! model of one's own, or negotiating with a window manager from outside.

pub mod direct;
pub mod discover;
pub mod error;
pub mod geometry;
pub mod layout;
pub mod measure;
pub mod naming;
pub mod negotiated;
pub mod plan;
pub mod report;
pub mod spawn;
pub mod text;
pub mod tiling;
pub mod tree;
