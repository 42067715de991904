//! A verified polygon-combination pipeline for vector drawings.
//!
//! The library walks a tree of shapes, turns flattening events for each
//! shape into closed polygonal contours, merges the per-shape contour
//! groups through a fixed offset / difference / union / cleanup schedule,
//! and serializes the result as path-drawing commands. The curve
//! tessellation and polygon clipping engines stay outside the library:
//! callers run them and feed their answers back through plain values.

pub mod combine;
pub mod emit;
pub mod geom;
pub mod flatten;
pub mod stats;
pub mod tree;
