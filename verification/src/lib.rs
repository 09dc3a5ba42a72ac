//! Exact integer core of a Bezier and B-spline curve toolkit.
//!
//! The crate holds the parts of curve evaluation that are decided over
//! integers: factorials and binomial coefficients of the Bernstein basis,
//! clamped uniform knot vectors, and the validity rules for control polygons
//! and spline degrees. Every function is verified against a mathematical
//! model stated with spec functions.

pub mod bezier;
pub mod bspline;
pub mod error;
pub mod polygon;
