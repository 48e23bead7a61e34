use krylov::lax::{NormType, Transpose, UPLO, ITYPE};

#[test]
fn uplo_transposes_to_the_opposite_triangle() {
    assert!(matches!(UPLO::Upper.t(), UPLO::Lower));
    assert!(matches!(UPLO::Lower.t(), UPLO::Upper));
    assert!(matches!(UPLO::Upper.t().t(), UPLO::Upper));
}

#[test]
fn norm_type_transpose_swaps_one_and_infinity() {
    assert!(matches!(NormType::One.transpose(), NormType::Infinity));
    assert!(matches!(NormType::Infinity.transpose(), NormType::One));
    assert!(matches!(NormType::Frobenius.transpose(), NormType::Frobenius));
}

#[test]
fn flag_enums_are_copyable() {
    let t = Transpose::Hermite;
    let u = t;
    assert!(matches!(t, Transpose::Hermite));
    assert!(matches!(u, Transpose::Hermite));
    let i = ITYPE::AxlBx;
    assert!(matches!(i, ITYPE::AxlBx));
}
