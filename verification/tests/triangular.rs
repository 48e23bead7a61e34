use krylov::lax::UPLO;
use krylov::triangular::{drop_lower, drop_upper, into_triangular};
use num_complex::Complex64;

fn col(xs: &[f64]) -> Vec<Complex64> {
    xs.iter().map(|&x| Complex64::new(x, 0.0)).collect()
}

fn mat(cols: &[&[f64]]) -> Vec<Vec<Complex64>> {
    cols.iter().map(|c| col(c)).collect()
}

fn assert_mat_eq(got: &[Vec<Complex64>], want: &[&[f64]]) {
    assert_eq!(got.len(), want.len());
    for j in 0..got.len() {
        assert_eq!(got[j].len(), want[j].len());
        for i in 0..got[j].len() {
            assert_eq!(got[j][i], Complex64::new(want[j][i], 0.0), "entry ({}, {})", i, j);
        }
    }
}

#[test]
fn drop_upper_zeroes_above_the_diagonal() {
    // Columns of the 3x3 matrix with entries 1..9 laid out column-wise.
    let a = mat(&[&[1.0, 2.0, 3.0], &[4.0, 5.0, 6.0], &[7.0, 8.0, 9.0]]);
    let r = drop_upper(a);
    assert_mat_eq(&r, &[&[1.0, 2.0, 3.0], &[0.0, 5.0, 6.0], &[0.0, 0.0, 9.0]]);
}

#[test]
fn drop_lower_zeroes_below_the_diagonal() {
    let a = mat(&[&[1.0, 2.0, 3.0], &[4.0, 5.0, 6.0], &[7.0, 8.0, 9.0]]);
    let r = drop_lower(a);
    assert_mat_eq(&r, &[&[1.0, 0.0, 0.0], &[4.0, 5.0, 0.0], &[7.0, 8.0, 9.0]]);
}

#[test]
fn into_triangular_keeps_the_named_triangle() {
    let a = mat(&[&[1.0, 2.0], &[3.0, 4.0]]);
    let upper = into_triangular(a, UPLO::Upper);
    assert_mat_eq(&upper, &[&[1.0, 0.0], &[3.0, 4.0]]);
    let a = mat(&[&[1.0, 2.0], &[3.0, 4.0]]);
    let lower = into_triangular(a, UPLO::Lower);
    assert_mat_eq(&lower, &[&[1.0, 2.0], &[0.0, 4.0]]);
}

#[test]
fn drop_upper_on_a_rectangular_matrix() {
    // Two columns of height three: only entries with row < column go.
    let a = mat(&[&[1.0, 2.0, 3.0], &[4.0, 5.0, 6.0]]);
    let r = drop_upper(a);
    assert_mat_eq(&r, &[&[1.0, 2.0, 3.0], &[0.0, 5.0, 6.0]]);
}
