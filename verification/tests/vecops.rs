use krylov::vecops::{copy_vec, inner, norm_l2, zeros};
use num_complex::Complex64;

#[test]
fn inner_is_conjugate_linear_in_the_first_argument() {
    let x = vec![Complex64::new(0.0, 1.0), Complex64::new(2.0, 0.0)];
    let y = vec![Complex64::new(3.0, 0.0), Complex64::new(0.0, 1.0)];
    // conj(i) * 3 + conj(2) * i = -3i + 2i = -i
    let p = inner(&x, &y);
    assert!((p - Complex64::new(0.0, -1.0)).norm_sqr().sqrt() < 1e-12);
}

#[test]
fn norm_l2_of_a_three_four_vector_is_five() {
    let x = vec![Complex64::new(3.0, 0.0), Complex64::new(0.0, 4.0)];
    let n = norm_l2(&x);
    assert!((n - Complex64::new(5.0, 0.0)).norm_sqr().sqrt() < 1e-12);
}

#[test]
fn zeros_and_copies() {
    let z = zeros(4);
    assert_eq!(z.len(), 4);
    for e in &z {
        assert_eq!(*e, Complex64::new(0.0, 0.0));
    }
    let x = vec![Complex64::new(1.5, -2.0), Complex64::new(0.0, 3.0)];
    let y = copy_vec(&x);
    assert_eq!(x, y);
}
