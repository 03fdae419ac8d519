use slal::determinant::Determinant;
use slal::eigen::Eigen;
use slal::error::SlalError;
use slal::inner::InnerProduct;
use slal::inverse::Cofactor;
use slal::inverse::Inverse;
use slal::linear::Cross;
use slal::linear::Dot;
use slal::matrix::Matrix;
use slal::random::Random;
use slal::rational::Rational;
use slal::structure::DiagonalMatrix;
use slal::structure::minor;
use slal::triangular::TriangularMatrix;
use slal::vertex::Vertex;

fn rat_is(r: &Rational, n: i128, d: i128) -> bool {
    // same number, by cross-multiplication
    r.n * d == n * r.d
}

#[test]
fn det_two_by_two() {
    let m = Matrix::<i32>::new(&vec![vec![1, 2], vec![3, 4]]).unwrap();
    let d = m.det().unwrap();

    assert!(rat_is(&d, -2, 1));
    assert!(d.eq_rat(&Rational { n: -4, d: 2 }));
    assert!(!d.eq_rat(&Rational { n: 2, d: 1 }));
}

#[test]
fn det_lower_triangular_diagonal_product() {
    let m = Matrix::<i32>::new(&vec![vec![1, 0, 0], vec![2, 3, 0], vec![4, 5, 6]]).unwrap();
    let d = m.det().unwrap();

    assert!(m.is_lower_triangular());
    assert!(rat_is(&d, 18, 1));
}

#[test]
fn det_upper_triangular_diagonal_product() {
    let m = Matrix::<i32>::new(&vec![vec![2, 7, 1], vec![0, 5, 9], vec![0, 0, 3]]).unwrap();
    let d = m.det().unwrap();

    assert!(m.is_upper_triangular());
    assert!(rat_is(&d, 30, 1));
}

#[test]
fn det_three_by_three_closed_form() {
    let m = Matrix::<i32>::new(&vec![vec![2, 1, 3], vec![1, 0, 1], vec![4, 2, 1]]).unwrap();
    let d = m.det().unwrap();

    // expansion along the first column: 2*(0-2) - 1*(1-6) + 4*(1-0)
    assert!(rat_is(&d, 5, 1));
}

#[test]
fn det_four_by_four_via_triangularization() {
    let m = Matrix::<i32>::new(&vec![
        vec![2, 1, 0, 0],
        vec![1, 2, 1, 0],
        vec![0, 1, 2, 1],
        vec![0, 0, 1, 2],
    ])
    .unwrap();
    let d = m.det().unwrap();

    assert!(rat_is(&d, 5, 1));
}

#[test]
fn det_rejects_non_square() {
    let m = Matrix::<i32>::new(&vec![vec![1, 2, 3], vec![4, 5, 6]]).unwrap();

    assert!(matches!(m.det(), Err(SlalError::NotSquareMatrix)));
}

#[test]
fn det_rejects_empty() {
    let m = Matrix::<i32>::new(&vec![]).unwrap();

    assert!(matches!(m.det(), Err(SlalError::EmptyMatrix)));
}

#[test]
fn cofactor_rejects_non_square() {
    let m = Matrix::<i32>::new(&vec![vec![1, 2, 3], vec![4, 5, 6]]).unwrap();

    assert!(matches!(m.cofactor(), Err(SlalError::NotSquareMatrix)));
}

#[test]
fn inverse_rejects_non_square() {
    let m = Matrix::<i32>::new(&vec![vec![1, 2, 3], vec![4, 5, 6]]).unwrap();

    assert!(matches!(m.inverse(), Err(SlalError::NotSquareMatrix)));
}

#[test]
fn triangular_rejects_non_square() {
    let m = Matrix::<i32>::new(&vec![vec![1, 2, 3], vec![4, 5, 6]]).unwrap();

    assert!(matches!(m.upper_triangular(), Err(SlalError::NotSquareMatrix)));
    assert!(matches!(m.lower_triangular(), Err(SlalError::NotSquareMatrix)));
}

#[test]
fn triangular_form_unavailable_on_zero_pivot() {
    let m = Matrix::<i32>::new(&vec![vec![0, 1], vec![1, 0]]).unwrap();

    assert!(matches!(m.upper_triangular(), Err(SlalError::TriangularFormUnavailable)));
}

#[test]
fn upper_triangular_of_two_by_two() {
    let m = Matrix::<i32>::new(&vec![vec![2, 1], vec![4, 3]]).unwrap();
    let u = m.upper_triangular().unwrap();

    // Doolittle: U = [[2, 1], [0, 1]]
    assert!(rat_is(&u.get(0, 0), 2, 1));
    assert!(rat_is(&u.get(0, 1), 1, 1));
    assert!(rat_is(&u.get(1, 0), 0, 1));
    assert!(rat_is(&u.get(1, 1), 1, 1));
}

#[test]
fn lower_triangular_is_transposed_upper() {
    let m = Matrix::<i32>::new(&vec![vec![2, 1], vec![4, 3]]).unwrap();
    let l = m.lower_triangular().unwrap();

    assert!(rat_is(&l.get(0, 0), 2, 1));
    assert!(rat_is(&l.get(1, 0), 1, 1));
    assert!(rat_is(&l.get(0, 1), 0, 1));
    assert!(rat_is(&l.get(1, 1), 1, 1));
}

#[test]
fn inverse_times_matrix_is_identity() {
    let m = Matrix::<i32>::new(&vec![vec![1, 2], vec![3, 4]]).unwrap();
    let inv = m.inverse().unwrap();

    // inverse of [[1,2],[3,4]] is [[-2, 1], [3/2, -1/2]]
    assert!(rat_is(&inv.get(0, 0), -2, 1));
    assert!(rat_is(&inv.get(0, 1), 1, 1));
    assert!(rat_is(&inv.get(1, 0), 3, 2));
    assert!(rat_is(&inv.get(1, 1), -1, 2));

    // M * inverse(M) is exactly the identity, entry by entry:
    // sum_k m[j][k] * inv[k][i] over a common denominator
    let mv = [[1i128, 2], [3, 4]];
    for j in 0..2 {
        for i in 0..2 {
            let a = inv.get(0, i);
            let b = inv.get(1, i);
            // m[j][0]*a + m[j][1]*b == (j == i ? 1 : 0)
            let num = mv[j][0] * a.n * b.d + mv[j][1] * b.n * a.d;
            let den = a.d * b.d;
            if j == i {
                assert_eq!(num, den);
            } else {
                assert_eq!(num, 0);
            }
        }
    }
}

#[test]
fn inverse_rejects_singular() {
    let m = Matrix::<i32>::new(&vec![vec![1, 2], vec![2, 4]]).unwrap();

    assert!(matches!(m.inverse(), Err(SlalError::DeterminantZero)));
}

#[test]
fn cofactor_of_three_by_three() {
    let m = Matrix::<i32>::new(&vec![vec![1, 2, 0], vec![0, 1, 3], vec![4, 0, 1]]).unwrap();
    let c = m.cofactor().unwrap();

    // standard signed minors
    assert!(rat_is(&c.get(0, 0), 1, 1));
    assert!(rat_is(&c.get(0, 1), 12, 1));
    assert!(rat_is(&c.get(0, 2), -4, 1));
    assert!(rat_is(&c.get(1, 0), -2, 1));
    assert!(rat_is(&c.get(1, 1), 1, 1));
    assert!(rat_is(&c.get(1, 2), 8, 1));
    assert!(rat_is(&c.get(2, 0), 6, 1));
    assert!(rat_is(&c.get(2, 1), -3, 1));
    assert!(rat_is(&c.get(2, 2), 1, 1));
}

#[test]
fn minor_drops_row_and_column() {
    let m = Matrix::<i32>::new(&vec![vec![1, 2, 3], vec![4, 5, 6], vec![7, 8, 9]]).unwrap();
    let mi = minor(&m, 1, 0);

    assert_eq!(mi, Matrix::<i32>::new(&vec![vec![2, 3], vec![8, 9]]).unwrap());
}

#[test]
fn dot_row_with_column() {
    let v = Vertex::<i32>::new(&[1, 2, 3]);
    let mut w = Vertex::<i32>::new(&[1, 4, 9]);

    w.t();

    assert_eq!(v.dot(&w), Ok(36));
}

#[test]
fn dot_same_orientation_rejected() {
    let v = Vertex::<i32>::new(&[1, 2, 3]);
    let w = Vertex::<i32>::new(&[1, 4, 9]);

    assert_eq!(v.dot(&w), Err(SlalError::OrientationError));

    let mut v2 = Vertex::<i32>::new(&[1, 2, 3]);
    let mut w2 = Vertex::<i32>::new(&[1, 4, 9]);
    v2.t();
    w2.t();

    assert_eq!(v2.dot(&w2), Err(SlalError::OrientationError));
}

#[test]
fn dot_unmatching_length_rejected() {
    let v = Vertex::<i32>::new(&[1, 2, 3]);
    let mut w = Vertex::<i32>::new(&[1, 4, 9, 16]);

    w.t();

    assert_eq!(v.dot(&w), Err(SlalError::UnmatchingOperandLength));
}

#[test]
fn cross_of_three_vectors() {
    let v = Vertex::<i32>::new(&[1, 2, 3]);
    let mut w = Vertex::<i32>::new(&[1, 4, 9]);

    w.t();

    assert_eq!(v.cross(&w).unwrap(), Vertex::<i32>::new(&[6, -6, 2]));
}

#[test]
fn cross_error_order() {
    let v = Vertex::<i32>::new(&[1, 2, 3]);
    let w = Vertex::<i32>::new(&[1, 4, 9, 16]);

    assert_eq!(v.cross(&w), Err(SlalError::UnmatchingOperandLength));

    let w2 = Vertex::<i32>::new(&[1, 4, 9]);

    assert_eq!(v.cross(&w2), Err(SlalError::OrientationError));
}

#[test]
fn vertex_transpose_involutive() {
    let mut v = Vertex::<i32>::new(&[1, 2, 3]);
    let orig = v.clone();

    v.t();
    assert!(v.is_transposed());
    v.t();

    assert_eq!(v, orig);
}

#[test]
fn matrix_transpose_involutive() {
    let mut m = Matrix::<i32>::new(&vec![vec![1, 2, 3], vec![4, 5, 6]]).unwrap();
    let orig = m.clone();

    m.t();
    assert_eq!(m.size(), (2, 3));
    m.t();

    assert_eq!(m, orig);
}

#[test]
fn matrix_transpose_permutes_entries() {
    let mut m = Matrix::<i32>::new(&vec![vec![1, 2, 3], vec![4, 5, 6]]).unwrap();

    m.t();

    assert_eq!(m, Matrix::<i32>::new(&vec![vec![1, 4], vec![2, 5], vec![3, 6]]).unwrap());
}

#[test]
fn matrix_new_rejects_unequal_rows() {
    let r = Matrix::<i32>::new(&vec![vec![1, 2], vec![3]]);

    assert_eq!(r, Err(SlalError::UnmatchingOperandLength));
}

#[test]
fn diagonal_matrix_is_diagonal() {
    let m = Matrix::<i32>::diagonal(&[1, 2, 3, 4]);

    assert_eq!(m.size(), (4, 4));
    assert!(m.is_diagonal());
    assert_eq!(
        m,
        Matrix::<i32>::new(&vec![
            vec![1, 0, 0, 0],
            vec![0, 2, 0, 0],
            vec![0, 0, 3, 0],
            vec![0, 0, 0, 4],
        ])
        .unwrap()
    );

    let perturbed = Matrix::<i32>::new(&vec![
        vec![1, 0, 0, 0],
        vec![0, 2, 0, 0],
        vec![0, 0, 3, 7],
        vec![0, 0, 0, 4],
    ])
    .unwrap();

    assert!(m != perturbed);
    assert!(!perturbed.is_diagonal());
}

#[test]
fn vertex_matrix_product() {
    let v = Vertex::<i32>::new(&[1, 2]);
    let m = Matrix::<i32>::new(&vec![vec![1, 2, 3], vec![4, 5, 6]]).unwrap();

    // linear combination of the rows: [1+8, 2+10, 3+12]
    assert_eq!(v.dot(&m).unwrap(), Vertex::<i32>::new(&[9, 12, 15]));
}

#[test]
fn vertex_matrix_product_errors() {
    let mut vc = Vertex::<i32>::new(&[1, 2]);
    let m = Matrix::<i32>::new(&vec![vec![1, 2, 3], vec![4, 5, 6]]).unwrap();

    vc.t();
    assert_eq!(vc.dot(&m), Err(SlalError::OrientationError));

    let v3 = Vertex::<i32>::new(&[1, 2, 3]);
    assert_eq!(v3.dot(&m), Err(SlalError::ShapeMismatch));
}

#[test]
fn matrix_vertex_product() {
    let m = Matrix::<i32>::new(&vec![vec![1, 2, 3], vec![4, 5, 6]]).unwrap();
    let mut v = Vertex::<i32>::new(&[1, 2, 3]);

    v.t();

    let r = m.dot(&v).unwrap();
    assert!(r.is_transposed());

    let mut expected = Vertex::<i32>::new(&[14, 32]);
    expected.t();
    assert_eq!(r, expected);
}

#[test]
fn matrix_vertex_product_errors() {
    let m = Matrix::<i32>::new(&vec![vec![1, 2, 3], vec![4, 5, 6]]).unwrap();
    let v = Vertex::<i32>::new(&[1, 2, 3]);

    assert_eq!(m.dot(&v), Err(SlalError::OrientationError));

    let mut v2 = Vertex::<i32>::new(&[1, 2]);
    v2.t();
    assert_eq!(m.dot(&v2), Err(SlalError::ShapeMismatch));
}

#[test]
fn matrix_matrix_product() {
    let a = Matrix::<i32>::new(&vec![vec![1, 2], vec![3, 4]]).unwrap();
    let b = Matrix::<i32>::new(&vec![vec![5, 6], vec![7, 8]]).unwrap();

    assert_eq!(
        a.dot(&b).unwrap(),
        Matrix::<i32>::new(&vec![vec![19, 22], vec![43, 50]]).unwrap()
    );
}

#[test]
fn matrix_matrix_product_rejects_mismatch() {
    let a = Matrix::<i32>::new(&vec![vec![1, 2], vec![3, 4]]).unwrap();
    let b = Matrix::<i32>::new(&vec![vec![1, 2], vec![3, 4], vec![5, 6]]).unwrap();

    assert_eq!(a.dot(&b), Err(SlalError::UnmatchingOperandLength));
}

#[test]
fn matrix_scalar_product() {
    let m = Matrix::<i32>::new(&vec![vec![1, 2], vec![3, 4]]).unwrap();

    assert_eq!(
        m.dot(&3),
        Matrix::<i32>::new(&vec![vec![3, 6], vec![9, 12]]).unwrap()
    );
}

#[test]
fn outer_product_of_column_and_row() {
    let v = Vertex::<i32>::new(&[1, 2, 3]);
    let mut c = Vertex::<i32>::new(&[4, 5, 6]);

    c.t();

    assert_eq!(
        c.mul(&v).unwrap(),
        Matrix::<i32>::new(&vec![vec![4, 8, 12], vec![5, 10, 15], vec![6, 12, 18]]).unwrap()
    );
}

#[test]
fn inner_product_sums_gram_entries() {
    let m = Matrix::<i32>::new(&vec![vec![1, 2], vec![3, 4]]).unwrap();

    assert_eq!(m.inner(), Ok(58));
}

#[test]
fn eigen_dominant_value_of_diagonal_matrix() {
    let m = Matrix::<i32>::new(&vec![vec![2, 0], vec![0, 1]]).unwrap();
    let (v, lambda) = m.eigen().unwrap();

    assert_eq!(v.len(), 2);
    // the estimate converges to 2 within the iteration tolerance
    let num = lambda.n - 2 * lambda.d;
    let num_abs = if num < 0 { -num } else { num };
    let den_abs = if lambda.d < 0 { -lambda.d } else { lambda.d };
    assert!(num_abs * 100_000_000 < den_abs);
}

#[test]
fn eigen_rejects_non_square() {
    let m = Matrix::<i32>::new(&vec![vec![1, 2, 3], vec![4, 5, 6]]).unwrap();

    assert!(matches!(m.eigen(), Err(SlalError::NotSquareMatrix)));
}

#[test]
fn random_matrix_has_nonzero_entries() {
    let m = Matrix::<i32>::rand_new([2, 3]);

    assert_eq!(m.size(), (2, 3));
    for j in 0..3 {
        for i in 0..2 {
            assert!(m.get(j, i) != 0);
        }
    }

    let t = Matrix::<i32>::rand_transposed([2, 3]);
    assert_eq!(t.size(), (3, 2));
}

#[test]
fn random_vertex_orientation() {
    let v = Vertex::<u16>::rand_new(4);

    assert_eq!(v.len(), 4);
    assert!(!v.is_transposed());
    for k in 0..4 {
        assert!(v.get(k) != 0);
    }

    let c = Vertex::<u16>::rand_transposed(4);
    assert!(c.is_transposed());
    assert_eq!(c.len(), 4);
}

#[test]
fn triangular_checks_on_non_square() {
    let m = Matrix::<i32>::new(&vec![vec![1, 2, 3], vec![4, 5, 6]]).unwrap();

    assert!(!m.is_upper_triangular());
    assert!(!m.is_lower_triangular());
    assert!(!m.is_diagonal());
}

#[test]
fn square_sum_of_vertex() {
    let v = Vertex::<i32>::new(&[1, 2, 3]);

    assert_eq!(slal::norm::square_sum(&v), Some(14));
}

#[test]
fn column_squares_of_matrix() {
    let m = Matrix::<i32>::new(&vec![vec![1, 2], vec![3, 4]]).unwrap();

    assert_eq!(slal::norm::column_squares(&m), Some(vec![10, 20]));
}
