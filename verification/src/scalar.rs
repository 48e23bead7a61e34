//! The scalar field of the library: double-precision complex numbers,
//! supplied by the `num_complex` crate.
//!
//! Floating-point arithmetic is performed entirely by the outside crate.
//! Each operation's result is given a name by an uninterpreted spec
//! function, and every verified function's contract pins its result down
//! to an exact combination of those named operations.  Real quantities
//! (norms, tolerances) are carried as complex values with zero imaginary
//! part, as `num_complex::Complex::from` produces them.

use vstd::prelude::*;

verus! {

use num_complex::Complex64;

#[verifier::external_type_specification]
#[verifier::external_body]
#[verifier::reject_recursive_types(T)]
pub struct ExComplex<T>(num_complex::Complex<T>);

pub uninterp spec fn add_of(a: Complex64, b: Complex64) -> Complex64;

pub uninterp spec fn sub_of(a: Complex64, b: Complex64) -> Complex64;

pub uninterp spec fn mul_of(a: Complex64, b: Complex64) -> Complex64;

pub uninterp spec fn neg_of(a: Complex64) -> Complex64;

pub uninterp spec fn conj_of(a: Complex64) -> Complex64;

pub uninterp spec fn div_re_of(a: Complex64, d: Complex64) -> Complex64;

pub uninterp spec fn norm_sqr_of(a: Complex64) -> Complex64;

pub uninterp spec fn sqrt_re_of(a: Complex64) -> Complex64;

pub uninterp spec fn re_of(a: Complex64) -> Complex64;

pub uninterp spec fn re_lt(a: Complex64, b: Complex64) -> bool;

pub uninterp spec fn c_of_nat(n: nat) -> Complex64;

/// Relies on num_complex's `Add` impl for `Complex`: componentwise addition.
#[verifier::external_body]
pub(crate) fn c_add(a: Complex64, b: Complex64) -> (r: Complex64)
    ensures
        r == add_of(a, b),
{
    a + b
}

/// Relies on num_complex's `Sub` impl for `Complex`: componentwise subtraction.
#[verifier::external_body]
pub(crate) fn c_sub(a: Complex64, b: Complex64) -> (r: Complex64)
    ensures
        r == sub_of(a, b),
{
    a - b
}

/// Relies on num_complex's `Mul` impl for `Complex`: complex multiplication.
#[verifier::external_body]
pub(crate) fn c_mul(a: Complex64, b: Complex64) -> (r: Complex64)
    ensures
        r == mul_of(a, b),
{
    a * b
}

/// Relies on num_complex's `Neg` impl for `Complex`: componentwise negation.
#[verifier::external_body]
pub(crate) fn c_neg(a: Complex64) -> (r: Complex64)
    ensures
        r == neg_of(a),
{
    -a
}

/// Relies on `Complex::conj`: the complex conjugate.
#[verifier::external_body]
pub(crate) fn c_conj(a: Complex64) -> (r: Complex64)
    ensures
        r == conj_of(a),
{
    a.conj()
}

/// Relies on `Complex::unscale`: both components divided by the real
/// part of `d` (division by a real scalar).
#[verifier::external_body]
pub(crate) fn c_div_re(a: Complex64, d: Complex64) -> (r: Complex64)
    ensures
        r == div_re_of(a, d),
{
    a.unscale(d.re)
}

/// Relies on `Complex::norm_sqr` (the squared absolute value, a real
/// number) and `Complex::from`, which embeds it with zero imaginary part.
#[verifier::external_body]
pub(crate) fn c_norm_sqr(a: Complex64) -> (r: Complex64)
    ensures
        r == norm_sqr_of(a),
{
    num_complex::Complex::from(a.norm_sqr())
}

/// Relies on the standard library's square root of the real part and
/// `Complex::from`, which embeds it with zero imaginary part.
#[verifier::external_body]
pub(crate) fn c_sqrt_re(a: Complex64) -> (r: Complex64)
    ensures
        r == sqrt_re_of(a),
{
    num_complex::Complex::from(a.re.sqrt())
}

/// Relies on `Complex::from`: the real part of `a`, embedded with zero
/// imaginary part.
#[verifier::external_body]
pub(crate) fn c_re(a: Complex64) -> (r: Complex64)
    ensures
        r == re_of(a),
{
    num_complex::Complex::from(a.re)
}

/// Relies on the standard library's `<` on the real parts: an order on
/// real quantities carried as complex values.
#[verifier::external_body]
pub(crate) fn c_re_lt(a: Complex64, b: Complex64) -> (r: bool)
    ensures
        r == re_lt(a, b),
{
    a.re < b.re
}

/// Relies on num_traits' `FromPrimitive::from_u64` for `Complex`: the
/// integer as the real part, zero imaginary part; defined for every `u64`.
#[verifier::external_body]
pub(crate) fn c_from_u64(n: u64) -> (r: Complex64)
    ensures
        r == c_of_nat(n as nat),
{
    num_traits::FromPrimitive::from_u64(n).unwrap()
}

} // verus!
