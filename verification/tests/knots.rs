use curvemath::bspline::{check_degree, generate_knot_vector};
use curvemath::error::CurveError;

#[test]
fn knot_vector_of_ten_points_and_degree_five() {
    let knots = generate_knot_vector(9, 5).unwrap();
    assert_eq!(knots.len(), 15);
    assert_eq!(knots, vec![0, 0, 0, 0, 0, 1, 2, 3, 4, 5, 6, 6, 6, 6, 6]);
    assert_eq!(knots[4], 0);
    assert_eq!(knots[10], 6);
}

#[test]
fn knot_vector_of_degree_one() {
    assert_eq!(generate_knot_vector(3, 1), Ok(vec![0, 1, 2, 3, 4]));
    assert_eq!(generate_knot_vector(1, 1), Ok(vec![0, 1, 2]));
}

#[test]
fn knot_vector_of_the_largest_degree() {
    assert_eq!(generate_knot_vector(3, 3), Ok(vec![0, 0, 0, 1, 2, 2, 2]));
}

#[test]
fn knot_vector_rejects_degree_zero() {
    assert_eq!(generate_knot_vector(4, 0), Err(CurveError::DegreeOutOfRange));
}

#[test]
fn knot_vector_rejects_degree_above_last_index() {
    assert_eq!(generate_knot_vector(4, 5), Err(CurveError::DegreeOutOfRange));
    assert_eq!(generate_knot_vector(0, 1), Err(CurveError::DegreeOutOfRange));
    assert_eq!(generate_knot_vector(0, 0), Err(CurveError::DegreeOutOfRange));
    assert_eq!(generate_knot_vector(2, usize::MAX), Err(CurveError::DegreeOutOfRange));
}

#[test]
fn knot_vector_has_the_stated_length() {
    for n in 1..=12usize {
        for degree in 1..=n {
            assert_eq!(generate_knot_vector(n, degree).unwrap().len(), n + degree + 1);
        }
    }
}

#[test]
fn knot_vector_never_decreases() {
    for n in 1..=12usize {
        for degree in 1..=n {
            let knots = generate_knot_vector(n, degree).unwrap();
            for pair in knots.windows(2) {
                assert!(pair[0] <= pair[1]);
            }
        }
    }
}

#[test]
fn knot_vector_repeats_degree_values_at_each_end() {
    for n in 1..=12usize {
        for degree in 1..=n {
            let knots = generate_knot_vector(n, degree).unwrap();
            let first = knots[0];
            let last = knots[knots.len() - 1];
            assert_eq!(knots.iter().filter(|&&knot| knot == first).count(), degree);
            assert_eq!(knots.iter().filter(|&&knot| knot == last).count(), degree);
            assert!(knots[..degree].iter().all(|&knot| knot == first));
            assert!(knots[knots.len() - degree..].iter().all(|&knot| knot == last));
        }
    }
}

#[test]
fn knot_vector_interior_counts_up_from_one() {
    let n = 7usize;
    let degree = 3usize;
    let knots = generate_knot_vector(n, degree).unwrap();
    for position in degree..=n {
        assert_eq!(knots[position], position - degree + 1);
    }
    for position in n + 1..knots.len() {
        assert_eq!(knots[position], n - degree + 2);
    }
}

#[test]
fn knot_vector_domain_bounds() {
    for n in 1..=12usize {
        for degree in 1..=n {
            let knots = generate_knot_vector(n, degree).unwrap();
            assert_eq!(knots[degree - 1], 0);
            assert_eq!(knots[n + 1], n - degree + 2);
        }
    }
}

#[test]
fn degree_check_accepts_one_to_last_index() {
    assert_eq!(check_degree(9, 1), Ok(()));
    assert_eq!(check_degree(9, 5), Ok(()));
    assert_eq!(check_degree(9, 9), Ok(()));
}

#[test]
fn degree_check_rejects_the_rest() {
    assert_eq!(check_degree(9, 0), Err(CurveError::DegreeOutOfRange));
    assert_eq!(check_degree(9, 10), Err(CurveError::DegreeOutOfRange));
    assert_eq!(check_degree(0, 0), Err(CurveError::DegreeOutOfRange));
    assert_eq!(check_degree(0, 1), Err(CurveError::DegreeOutOfRange));
}
