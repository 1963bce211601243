//! Verified combinatorial core of an interactive curve editor: how control
//! points are split into cubic Bézier segments, the clamped knot vector of a
//! cubic B-spline, the sampling schedule of a piecewise Hermite curve, the
//! continuity classification of a chain of segments, and the editor's
//! input-handling state machine.
pub mod bezier;
pub mod bspline;
pub mod continuity;
pub mod hermite;
pub mod model;
