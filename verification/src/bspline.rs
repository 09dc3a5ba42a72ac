//! Clamped uniform knot vectors and the degree rule of B-splines.

use crate::error::CurveError;
use crate::polygon::{all_of_dimension, check_dimension};
use vstd::prelude::*;

verus! {

/// The number of coordinates of every point that the spline evaluator takes.
pub const SPLINE_DIMENSION: usize = 3;

/// A degree is valid for a spline whose last control point has index `n`
/// when it lies in `1..=n`.
pub open spec fn degree_in_range(n: nat, degree: nat) -> bool {
    1 <= degree <= n
}

/// The knot at `position` of the clamped uniform knot vector for `n` and
/// `degree`: zero on the first `degree` positions, then counting up from one,
/// and held at `n - degree + 2` after position `n`.
pub open spec fn knot_value(n: nat, degree: nat, position: nat) -> nat {
    if position < degree {
        0
    } else if position <= n {
        (position - degree + 1) as nat
    } else {
        (n - degree + 2) as nat
    }
}

/// `knots` is the clamped uniform knot vector for `n` and `degree`: it has
/// `n + degree + 1` entries, each the knot of its position.
pub open spec fn is_clamped_uniform(knots: Seq<usize>, n: nat, degree: nat) -> bool {
    &&& knots.len() == n + degree + 1
    &&& forall|position: int|
        0 <= position < knots.len() ==> (#[trigger] knots[position]) == knot_value(
            n,
            degree,
            position as nat,
        )
}

/// No knot is smaller than one before it.
pub open spec fn non_decreasing(knots: Seq<usize>) -> bool {
    forall|i: int, j: int| 0 <= i <= j < knots.len() ==> knots[i] <= knots[j]
}

/// Exactly the first `degree` knots share the first value, and exactly the
/// last `degree` knots share the last value.
pub open spec fn clamped_at_both_ends(knots: Seq<usize>, degree: nat) -> bool {
    &&& knots.len() > 2 * degree
    &&& forall|j: int|
        0 <= j < knots.len() ==> ((#[trigger] knots[j]) == knots[0] <==> j < degree)
    &&& forall|j: int|
        0 <= j < knots.len() ==> ((#[trigger] knots[j]) == knots[knots.len() - 1] <==> j
            >= knots.len() - degree)
}

/// For every valid degree the clamped uniform knot vector never decreases
/// and repeats exactly `degree` values at each end. The curve's domain runs
/// from the knot at `degree - 1`, which is zero, to the knot at `n + 1`,
/// which is `n - degree + 2`.
pub proof fn lemma_clamped_uniform_knots(knots: Seq<usize>, n: nat, degree: nat)
    requires
        degree_in_range(n, degree),
        is_clamped_uniform(knots, n, degree),
    ensures
        non_decreasing(knots),
        clamped_at_both_ends(knots, degree),
        knots[degree - 1] == 0,
        knots[n as int + 1] == n - degree + 2,
{
}

/// Checks that `degree` is valid for a spline whose last control point has
/// index `n`.
pub fn check_degree(n: usize, degree: usize) -> (outcome: Result<(), CurveError>)
    ensures
        match outcome {
            Ok(_) => degree_in_range(n as nat, degree as nat),
            Err(error) => {
                &&& !degree_in_range(n as nat, degree as nat)
                &&& error == CurveError::DegreeOutOfRange
            },
        },
{
    if 1 <= degree && degree <= n {
        Ok(())
    } else {
        Err(CurveError::DegreeOutOfRange)
    }
}

/// Builds the clamped uniform knot vector for a spline of the given `degree`
/// whose last control point has index `n`. A degree outside `1..=n` is
/// rejected.
pub fn generate_knot_vector(n: usize, degree: usize) -> (outcome: Result<Vec<usize>, CurveError>)
    requires
        degree_in_range(n as nat, degree as nat) ==> n + degree < usize::MAX,
    ensures
        match outcome {
            Ok(knots) => {
                &&& degree_in_range(n as nat, degree as nat)
                &&& is_clamped_uniform(knots@, n as nat, degree as nat)
                &&& non_decreasing(knots@)
                &&& clamped_at_both_ends(knots@, degree as nat)
            },
            Err(error) => {
                &&& !degree_in_range(n as nat, degree as nat)
                &&& error == CurveError::DegreeOutOfRange
            },
        },
{
    if degree < 1 || degree > n {
        return Err(CurveError::DegreeOutOfRange);
    }
    let count: usize = n + degree + 1;
    let mut knots: Vec<usize> = Vec::with_capacity(count);
    let mut position: usize = 0;
    while position < count
        invariant
            1 <= degree <= n,
            count == n + degree + 1,
            position <= count,
            knots@.len() == position,
            forall|j: int|
                0 <= j < position ==> (#[trigger] knots@[j]) == knot_value(
                    n as nat,
                    degree as nat,
                    j as nat,
                ),
        decreases count - position,
    {
        if position < degree {
            knots.push(0);
        } else if position <= n {
            knots.push(position - degree + 1);
        } else {
            knots.push(n - degree + 2);
        }
        position = position + 1;
    }
    proof {
        lemma_clamped_uniform_knots(knots@, n as nat, degree as nat);
    }
    Ok(knots)
}

/// Checks the control polygon and the degree of a spline: the polygon is not
/// empty, each point has three coordinates, and the degree lies in `1..=n`.
/// Gives `n`, the index of the last control point. Of several faults the
/// first in this order is reported.
pub fn check_spline<T>(points: &[Vec<T>], degree: usize) -> (outcome: Result<usize, CurveError>)
    ensures
        match outcome {
            Ok(n) => {
                &&& points@.len() == n + 1
                &&& all_of_dimension(points@, SPLINE_DIMENSION as nat)
                &&& degree_in_range(n as nat, degree as nat)
            },
            Err(CurveError::EmptyControlPolygon) => points@.len() == 0,
            Err(CurveError::DimensionMismatch) => points@.len() > 0 && !all_of_dimension(
                points@,
                SPLINE_DIMENSION as nat,
            ),
            Err(CurveError::DegreeOutOfRange) => {
                &&& points@.len() > 0
                &&& all_of_dimension(points@, SPLINE_DIMENSION as nat)
                &&& !degree_in_range((points@.len() - 1) as nat, degree as nat)
            },
        },
{
    match check_dimension(points, SPLINE_DIMENSION) {
        Err(error) => Err(error),
        Ok(n) => match check_degree(n, degree) {
            Err(error) => Err(error),
            Ok(_) => Ok(n),
        },
    }
}

} // verus!
