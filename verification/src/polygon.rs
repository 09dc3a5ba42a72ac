//! Control polygons: sequences of points that share one number of
//! coordinates.

use crate::error::CurveError;
use vstd::prelude::*;

verus! {

/// Every point of the polygon has exactly `dimension` coordinates.
pub open spec fn all_of_dimension<T>(points: Seq<Vec<T>>, dimension: nat) -> bool {
    forall|i: int| 0 <= i < points.len() ==> (#[trigger] points[i])@.len() == dimension
}

/// Checks that a control polygon is not empty and that each of its points
/// has exactly `dimension` coordinates. Gives the index of the last point.
pub fn check_dimension<T>(points: &[Vec<T>], dimension: usize) -> (outcome: Result<
    usize,
    CurveError,
>)
    ensures
        match outcome {
            Ok(last) => points@.len() == last + 1 && all_of_dimension(points@, dimension as nat),
            Err(CurveError::EmptyControlPolygon) => points@.len() == 0,
            Err(CurveError::DimensionMismatch) => points@.len() > 0 && !all_of_dimension(
                points@,
                dimension as nat,
            ),
            Err(CurveError::DegreeOutOfRange) => false,
        },
{
    let count = points.len();
    if count == 0 {
        return Err(CurveError::EmptyControlPolygon);
    }
    let mut index: usize = 0;
    while index < count
        invariant
            count == points@.len(),
            index <= count,
            forall|i: int| 0 <= i < index ==> (#[trigger] points@[i])@.len() == dimension,
        decreases count - index,
    {
        if points[index].len() != dimension {
            return Err(CurveError::DimensionMismatch);
        }
        index = index + 1;
    }
    Ok(count - 1)
}

/// Finds the common number of coordinates of the points of a control
/// polygon. An empty polygon, or one whose points differ in their number of
/// coordinates, is rejected.
pub fn polygon_dimension<T>(points: &[Vec<T>]) -> (outcome: Result<usize, CurveError>)
    ensures
        match outcome {
            Ok(dimension) => points@.len() > 0 && all_of_dimension(points@, dimension as nat),
            Err(CurveError::EmptyControlPolygon) => points@.len() == 0,
            Err(CurveError::DimensionMismatch) => points@.len() > 0 && !all_of_dimension(
                points@,
                points@[0]@.len(),
            ),
            Err(CurveError::DegreeOutOfRange) => false,
        },
{
    if points.len() == 0 {
        return Err(CurveError::EmptyControlPolygon);
    }
    let dimension = points[0].len();
    match check_dimension(points, dimension) {
        Ok(_) => Ok(dimension),
        Err(error) => Err(error),
    }
}

} // verus!
