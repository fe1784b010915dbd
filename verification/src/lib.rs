//! Fits a raw freehand pointer trace to a smooth multi-segment cubic Bezier
//! spline: segmentation of the trace into runs bounded by a chord-distance
//! threshold, per-run curve fitting, and a cross-segment smoothing pass that
//! suppresses kinks at run boundaries.
//!
//! Coordinates are fixed-point: a caller that samples floating-point pointer
//! positions scales them to integers before handing them to this crate.

pub mod bezier;
pub mod fit;
pub mod geometry;
pub mod points;
pub mod segment;
pub mod smooth;
pub mod spline;
