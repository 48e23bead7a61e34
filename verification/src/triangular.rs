//! Methods for triangular matrices: zeroing one triangle of a matrix
//! held as a vector of column vectors.
//!
//! Entry `i` of column `j` sits in row `i`; the strictly upper triangle
//! is where `i < j`, the strictly lower one where `i > j`.

use vstd::prelude::*;

verus! {

use num_complex::Complex64;
use crate::lax::UPLO;
use crate::scalar::{c_from_u64, c_of_nat};

/// `a` with its strictly upper triangle zeroed, so that only the lower
/// triangle and the diagonal remain.
pub fn drop_upper(a: Vec<Vec<Complex64>>) -> (r: Vec<Vec<Complex64>>)
    ensures
        r@.len() == a@.len(),
        forall|j: int| 0 <= j < a@.len() ==> (#[trigger] r@[j])@.len() == a@[j]@.len(),
        forall|j: int, i: int|
            0 <= j < a@.len() && 0 <= i < a@[j]@.len() ==> #[trigger] r@[j]@[i] == (if i < j {
                c_of_nat(0)
            } else {
                a@[j]@[i]
            }),
{
    let zero = c_from_u64(0);
    let mut r: Vec<Vec<Complex64>> = Vec::new();
    let mut j: usize = 0;
    while j < a.len()
        invariant
            0 <= j <= a@.len(),
            zero == c_of_nat(0),
            r@.len() == j,
            forall|w: int| 0 <= w < j ==> (#[trigger] r@[w])@.len() == a@[w]@.len(),
            forall|w: int, i: int|
                0 <= w < j && 0 <= i < a@[w]@.len() ==> #[trigger] r@[w]@[i] == (if i < w {
                    c_of_nat(0)
                } else {
                    a@[w]@[i]
                }),
        decreases a@.len() - j,
    {
        let cj = &a[j];
        let n = cj.len();
        let mut col: Vec<Complex64> = Vec::new();
        let mut i: usize = 0;
        while i < n
            invariant
                0 <= i <= n,
                n == cj@.len(),
                zero == c_of_nat(0),
                col@.len() == i,
                forall|w: int|
                    0 <= w < i ==> #[trigger] col@[w] == (if w < j { c_of_nat(0) } else { cj@[w] }),
            decreases n - i,
        {
            if i < j {
                col.push(zero);
            } else {
                let e = cj[i];
                col.push(e);
            }
            assert(col@[i as int] == (if i < j { c_of_nat(0) } else { cj@[i as int] }));
            i += 1;
        }
        r.push(col);
        j += 1;
    }
    r
}

/// `a` with its strictly lower triangle zeroed, so that only the upper
/// triangle and the diagonal remain.
pub fn drop_lower(a: Vec<Vec<Complex64>>) -> (r: Vec<Vec<Complex64>>)
    ensures
        r@.len() == a@.len(),
        forall|j: int| 0 <= j < a@.len() ==> (#[trigger] r@[j])@.len() == a@[j]@.len(),
        forall|j: int, i: int|
            0 <= j < a@.len() && 0 <= i < a@[j]@.len() ==> #[trigger] r@[j]@[i] == (if i > j {
                c_of_nat(0)
            } else {
                a@[j]@[i]
            }),
{
    let zero = c_from_u64(0);
    let mut r: Vec<Vec<Complex64>> = Vec::new();
    let mut j: usize = 0;
    while j < a.len()
        invariant
            0 <= j <= a@.len(),
            zero == c_of_nat(0),
            r@.len() == j,
            forall|w: int| 0 <= w < j ==> (#[trigger] r@[w])@.len() == a@[w]@.len(),
            forall|w: int, i: int|
                0 <= w < j && 0 <= i < a@[w]@.len() ==> #[trigger] r@[w]@[i] == (if i > w {
                    c_of_nat(0)
                } else {
                    a@[w]@[i]
                }),
        decreases a@.len() - j,
    {
        let cj = &a[j];
        let n = cj.len();
        let mut col: Vec<Complex64> = Vec::new();
        let mut i: usize = 0;
        while i < n
            invariant
                0 <= i <= n,
                n == cj@.len(),
                zero == c_of_nat(0),
                col@.len() == i,
                forall|w: int|
                    0 <= w < i ==> #[trigger] col@[w] == (if w > j { c_of_nat(0) } else { cj@[w] }),
            decreases n - i,
        {
            if i > j {
                col.push(zero);
            } else {
                let e = cj[i];
                col.push(e);
            }
            assert(col@[i as int] == (if i > j { c_of_nat(0) } else { cj@[i as int] }));
            i += 1;
        }
        r.push(col);
        j += 1;
    }
    r
}

/// Keeps the triangle `uplo` names (with the diagonal) and zeroes the
/// other one.
pub fn into_triangular(a: Vec<Vec<Complex64>>, uplo: UPLO) -> (r: Vec<Vec<Complex64>>)
    ensures
        r@.len() == a@.len(),
        forall|j: int| 0 <= j < a@.len() ==> (#[trigger] r@[j])@.len() == a@[j]@.len(),
        forall|j: int, i: int|
            0 <= j < a@.len() && 0 <= i < a@[j]@.len() ==> #[trigger] r@[j]@[i] == (match uplo {
                UPLO::Upper => if i > j {
                    c_of_nat(0)
                } else {
                    a@[j]@[i]
                },
                UPLO::Lower => if i < j {
                    c_of_nat(0)
                } else {
                    a@[j]@[i]
                },
            }),
{
    match uplo {
        UPLO::Upper => drop_lower(a),
        UPLO::Lower => drop_upper(a),
    }
}

} // verus!
