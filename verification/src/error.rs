//! The typed failures that curve inputs can produce.

use vstd::prelude::*;

verus! {

/// Why a set of curve inputs was rejected.
#[derive(Debug, Clone, Copy, PartialEq, Eq, Structural)]
pub enum CurveError {
    /// The control polygon holds no point.
    EmptyControlPolygon,
    /// Two points of a control polygon differ in their number of
    /// coordinates, or a point has not the number that the evaluator needs.
    DimensionMismatch,
    /// The spline degree lies outside `1..=n`, where `n` is the index of the
    /// last control point.
    DegreeOutOfRange,
}

} // verus!
