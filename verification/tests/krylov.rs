use krylov::{householder, mgs, qr, Householder, Orthogonalizer, Strategy, MGS};
use num_complex::Complex64;

fn v(xs: &[f64]) -> Vec<Complex64> {
    xs.iter().map(|&x| Complex64::new(x, 0.0)).collect()
}

fn rt(x: f64) -> Complex64 {
    Complex64::new(x, 0.0)
}

fn close_l2(got: &[Complex64], want: &[f64], tol: f64) {
    assert_eq!(got.len(), want.len());
    let mut s = 0.0;
    for i in 0..got.len() {
        let d = got[i] - Complex64::new(want[i], 0.0);
        s += d.norm_sqr();
    }
    assert!(s.sqrt() < tol, "distance {} from {:?} to {:?}", s.sqrt(), got, want);
}

fn inner_f(x: &[Complex64], y: &[Complex64]) -> Complex64 {
    let mut s = Complex64::new(0.0, 0.0);
    for i in 0..x.len() {
        s += x[i].conj() * y[i];
    }
    s
}

#[test]
fn householder_append() {
    let mut householder = Householder::new(3);
    let coef = householder.append(v(&[0.0, 1.0, 0.0]), rt(1e-9)).unwrap();
    close_l2(&coef, &[1.0], 1e-9);

    let coef = householder.append(v(&[1.0, 1.0, 0.0]), rt(1e-9)).unwrap();
    close_l2(&coef, &[1.0, 1.0], 1e-9);

    assert!(householder.append(v(&[1.0, 2.0, 0.0]), rt(1e-9)).is_err());

    if let Err(coef) = householder.append(v(&[1.0, 2.0, 0.0]), rt(1e-9)) {
        close_l2(&coef, &[2.0, 1.0, 0.0], 1e-9);
    }
}

#[test]
fn mgs_append() {
    let mut mgs = MGS::new(3);
    let coef = mgs.append(v(&[0.0, 1.0, 0.0]), rt(1e-9)).unwrap();
    close_l2(&coef, &[1.0], 1e-9);

    let coef = mgs.append(v(&[1.0, 1.0, 0.0]), rt(1e-9)).unwrap();
    close_l2(&coef, &[1.0, 1.0], 1e-9);

    assert!(mgs.append(v(&[1.0, 2.0, 0.0]), rt(1e-9)).is_err());

    if let Err(coef) = mgs.append(v(&[1.0, 2.0, 0.0]), rt(1e-9)) {
        close_l2(&coef, &[2.0, 1.0, 0.0], 1e-9);
    }
}

fn check_orthonormal(q: &[Vec<Complex64>], tol: f64) {
    for i in 0..q.len() {
        for j in 0..q.len() {
            let p = inner_f(&q[i], &q[j]);
            let want = if i == j { 1.0 } else { 0.0 };
            assert!(
                (p - Complex64::new(want, 0.0)).norm_sqr().sqrt() < tol,
                "inner(q_{}, q_{}) = {}",
                i,
                j,
                p
            );
        }
    }
}

#[test]
fn mgs_basis_is_orthonormal() {
    let mut o = MGS::new(4);
    o.append(v(&[1.0, 2.0, 0.0, -1.0]), rt(1e-9)).unwrap();
    o.append(v(&[0.5, -1.0, 3.0, 0.0]), rt(1e-9)).unwrap();
    o.append(v(&[2.0, 0.0, 0.0, 7.0]), rt(1e-9)).unwrap();
    let q = o.get_q();
    assert_eq!(q.len(), 3);
    check_orthonormal(&q, 1e-10);
}

#[test]
fn householder_basis_is_orthonormal() {
    let mut o = Householder::new(4);
    o.append(v(&[1.0, 2.0, 0.0, -1.0]), rt(1e-9)).unwrap();
    o.append(v(&[0.5, -1.0, 3.0, 0.0]), rt(1e-9)).unwrap();
    o.append(v(&[2.0, 0.0, 0.0, 7.0]), rt(1e-9)).unwrap();
    let q = o.get_q();
    assert_eq!(q.len(), 3);
    check_orthonormal(&q, 1e-10);
}

fn check_reconstruction(a: &[Vec<Complex64>], q: &[Vec<Complex64>], r: &[Vec<Complex64>], tol: f64) {
    // Column j of A should equal sum_i R[j][i] * q_i.
    for j in 0..a.len() {
        let dim = a[j].len();
        let mut rec = vec![Complex64::new(0.0, 0.0); dim];
        for i in 0..q.len() {
            for l in 0..dim {
                rec[l] += r[j][i] * q[i][l];
            }
        }
        let mut s = 0.0;
        for l in 0..dim {
            s += (rec[l] - a[j][l]).norm_sqr();
        }
        assert!(s.sqrt() < tol, "column {} reconstructed as {:?}", j, rec);
    }
}

#[test]
fn mgs_reconstructs_accepted_columns() {
    let inputs = vec![v(&[0.0, 1.0, 0.0]), v(&[1.0, 1.0, 0.0])];
    let (q, r) = mgs(&inputs, 3, rt(1e-9), Strategy::Skip);
    assert_eq!(q.len(), 2);
    assert_eq!(r.len(), 2);
    check_reconstruction(&inputs, &q, &r, 1e-10);
}

#[test]
fn householder_reconstructs_accepted_columns() {
    let inputs = vec![
        v(&[1.0, 2.0, 0.0, -1.0]),
        v(&[0.5, -1.0, 3.0, 0.0]),
        v(&[2.0, 0.0, 0.0, 7.0]),
    ];
    let (q, r) = householder(&inputs, 4, rt(1e-9), Strategy::Skip);
    assert_eq!(q.len(), 3);
    assert_eq!(r.len(), 3);
    check_reconstruction(&inputs, &q, &r, 1e-9);
}

#[test]
fn duplicate_vector_is_rejected() {
    let mut o = MGS::new(3);
    o.append(v(&[3.0, 0.0, 4.0]), rt(1e-9)).unwrap();
    assert!(o.append(v(&[3.0, 0.0, 4.0]), rt(1e-12)).is_err());
    assert_eq!(o.len(), 1);

    let mut h = Householder::new(3);
    h.append(v(&[3.0, 0.0, 4.0]), rt(1e-9)).unwrap();
    assert!(h.append(v(&[3.0, 0.0, 4.0]), rt(1e-12)).is_err());
    assert_eq!(h.len(), 1);
}

#[test]
fn policy_divergence_on_dependent_middle_vector() {
    let inputs = vec![v(&[0.0, 1.0, 0.0]), v(&[0.0, 2.0, 0.0]), v(&[1.0, 1.0, 0.0])];

    let (q, r) = mgs(&inputs, 3, rt(1e-9), Strategy::Terminate);
    assert_eq!(q.len(), 1);
    assert_eq!(r.len(), 1);
    close_l2(&r[0], &[1.0], 1e-9);

    let (q, r) = mgs(&inputs, 3, rt(1e-9), Strategy::Skip);
    assert_eq!(q.len(), 2);
    assert_eq!(r.len(), 2);
    assert_eq!(r[0].len(), 2);
    close_l2(&r[0], &[1.0, 0.0], 1e-9);
    close_l2(&r[1], &[1.0, 1.0], 1e-9);

    let (q, r) = mgs(&inputs, 3, rt(1e-9), Strategy::Full);
    assert_eq!(q.len(), 2);
    assert_eq!(r.len(), 3);
    // The dependent input leaves a rank-deficient column: the dependent
    // vector expressed in the basis built so far, with no new pivot.
    close_l2(&r[0], &[1.0, 0.0], 1e-9);
    close_l2(&r[1], &[2.0, 0.0], 1e-9);
    close_l2(&r[2], &[1.0, 1.0], 1e-9);
}

#[test]
fn qr_on_empty_input_is_empty() {
    let inputs: Vec<Vec<Complex64>> = Vec::new();
    let (q, r) = mgs(&inputs, 3, rt(1e-9), Strategy::Full);
    assert_eq!(q.len(), 0);
    assert_eq!(r.len(), 0);
    let (q, r) = householder(&inputs, 3, rt(1e-9), Strategy::Full);
    assert_eq!(q.len(), 0);
    assert_eq!(r.len(), 0);
}

#[test]
fn qr_with_explicit_orthogonalizer() {
    let inputs = vec![v(&[0.0, 1.0, 0.0]), v(&[1.0, 1.0, 0.0]), v(&[1.0, 2.0, 0.0])];
    let (q, r) = qr(&inputs, MGS::new(3), rt(1e-9), Strategy::Full);
    assert_eq!(q.len(), 2);
    assert_eq!(r.len(), 3);
    assert_eq!(r[0].len(), 2);
    close_l2(&r[0], &[1.0, 0.0], 1e-9);
    close_l2(&r[1], &[1.0, 1.0], 1e-9);
    close_l2(&r[2], &[2.0, 1.0], 1e-9);
}

#[test]
fn arnoldi_mgs_square_triangular_factor() {
    let inputs = vec![v(&[0.0, 1.0, 0.0]), v(&[1.0, 1.0, 0.0]), v(&[1.0, 2.0, 0.0])];

    // Under Full the rejected third vector keeps its full coefficient
    // column, residual norm included, in a three-by-three factor.
    let (q, r) = krylov::arnoldi::mgs(&inputs, 3, rt(1e-9), Strategy::Full);
    assert_eq!(q.len(), 2);
    assert_eq!(r.len(), 3);
    assert_eq!(r[0].len(), 3);
    close_l2(&r[0], &[1.0, 0.0, 0.0], 1e-9);
    close_l2(&r[1], &[1.0, 1.0, 0.0], 1e-9);
    close_l2(&r[2], &[2.0, 1.0, 0.0], 1e-9);

    // Under Skip only accepted columns remain and the factor is upper
    // triangular.
    let (q, r) = krylov::arnoldi::mgs(&inputs, 3, rt(1e-9), Strategy::Skip);
    assert_eq!(q.len(), 2);
    assert_eq!(r.len(), 2);
    assert_eq!(r[0].len(), 2);
    close_l2(&r[0], &[1.0, 0.0], 1e-9);
    close_l2(&r[1], &[1.0, 1.0], 1e-9);
}

#[test]
fn full_reflection_basis_rejects_everything() {
    let mut h = Householder::new(2);
    h.append(v(&[1.0, 0.0]), rt(1e-9)).unwrap();
    h.append(v(&[1.0, 1.0]), rt(1e-9)).unwrap();
    assert_eq!(h.len(), 2);
    assert!(h.append(v(&[5.0, -3.0]), rt(1e-9)).is_err());
    assert_eq!(h.len(), 2);
}

#[test]
fn householder_empty_basis_q_is_empty() {
    let h = Householder::new(3);
    assert_eq!(h.len(), 0);
    assert_eq!(h.dim(), 3);
    let q = h.get_q();
    assert_eq!(q.len(), 0);
}

#[test]
fn orthogonalize_returns_residual_norm() {
    let mut o = MGS::new(3);
    o.append(v(&[0.0, 2.0, 0.0]), rt(1e-9)).unwrap();
    let mut a = v(&[3.0, 5.0, 4.0]);
    let nrm = o.orthogonalize(&mut a);
    // The residual of [3, 5, 4] against span{e2} is [3, 0, 4].
    assert!((nrm - Complex64::new(5.0, 0.0)).norm_sqr().sqrt() < 1e-12);
    close_l2(&a, &[3.0, 0.0, 4.0], 1e-12);
}

#[test]
fn is_full_tracks_the_dimension() {
    let mut o = MGS::new(2);
    assert!(!o.is_full());
    o.append(v(&[1.0, 0.0]), rt(1e-9)).unwrap();
    assert!(!o.is_full());
    o.append(v(&[1.0, 1.0]), rt(1e-9)).unwrap();
    assert!(o.is_full());
    assert_eq!(o.dim(), 2);
    assert_eq!(o.len(), 2);
}

#[test]
fn householder_orthogonalize_reflects_in_place() {
    let mut h = Householder::new(3);
    h.append(v(&[0.0, 1.0, 0.0]), rt(1e-9)).unwrap();
    let mut a = v(&[1.0, 1.0, 0.0]);
    let nrm = h.orthogonalize(&mut a);
    // [1, 1, 0] is orthogonal to the stored reflector's action on the
    // leading coordinate, so it is unchanged and the residual below the
    // pivot has norm one.
    assert!((nrm - Complex64::new(1.0, 0.0)).norm_sqr().sqrt() < 1e-12);
    close_l2(&a, &[1.0, 1.0, 0.0], 1e-12);
}

#[test]
fn complex_inner_products_are_conjugated() {
    // Exercise the conjugate-linear inner product through an append with
    // genuinely complex entries: q = [i, 0], appending [2i, 3] projects
    // with coefficient conj(i) * 2i = 2.
    let mut o = MGS::new(2);
    let q0 = vec![Complex64::new(0.0, 1.0), Complex64::new(0.0, 0.0)];
    o.append(q0, rt(1e-9)).unwrap();
    let x = vec![Complex64::new(0.0, 2.0), Complex64::new(3.0, 0.0)];
    let coef = o.append(x, rt(1e-9)).unwrap();
    assert!((coef[0] - Complex64::new(2.0, 0.0)).norm_sqr().sqrt() < 1e-12);
    assert!((coef[1] - Complex64::new(3.0, 0.0)).norm_sqr().sqrt() < 1e-12);
}
