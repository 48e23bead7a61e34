//! Vector operations over the scalar field: inner product, Euclidean
//! norm, scaled subtraction and division by a real scalar.
//!
//! Each executable operation is a verified loop over the trusted scalar
//! operations; its contract states the result as the exact fold of the
//! named scalar operations, which the spec functions here define.

use vstd::prelude::*;

verus! {

use num_complex::Complex64;
use crate::scalar::{
    add_of, c_add, c_conj, c_div_re, c_from_u64, c_mul, c_norm_sqr, c_of_nat, c_sqrt_re, c_sub,
    conj_of, div_re_of, mul_of, norm_sqr_of, sqrt_re_of, sub_of,
};

/// The inner product of the first `n` entries of `x` and `y`, accumulated
/// left to right: conjugate-linear in `x`, linear in `y`.
pub open spec fn inner_prefix(x: Seq<Complex64>, y: Seq<Complex64>, n: int) -> Complex64
    decreases n,
{
    if n <= 0 {
        c_of_nat(0)
    } else {
        add_of(inner_prefix(x, y, n - 1), mul_of(conj_of(x[n - 1]), y[n - 1]))
    }
}

/// The inner product of `x` and `y`.
pub open spec fn inner_seq(x: Seq<Complex64>, y: Seq<Complex64>) -> Complex64 {
    inner_prefix(x, y, x.len() as int)
}

/// The sum of squared absolute values of the first `n` entries of `x`.
pub open spec fn sumsq_prefix(x: Seq<Complex64>, n: int) -> Complex64
    decreases n,
{
    if n <= 0 {
        c_of_nat(0)
    } else {
        add_of(sumsq_prefix(x, n - 1), norm_sqr_of(x[n - 1]))
    }
}

/// The Euclidean norm of `x`: the square root of the sum of squared
/// absolute values.
pub open spec fn norm_seq(x: Seq<Complex64>) -> Complex64 {
    sqrt_re_of(sumsq_prefix(x, x.len() as int))
}

/// `a` with `c` times `q` subtracted, entry by entry.
pub open spec fn sub_scaled_seq(a: Seq<Complex64>, c: Complex64, q: Seq<Complex64>) -> Seq<
    Complex64,
> {
    Seq::new(a.len(), |i: int| sub_of(a[i], mul_of(c, q[i])))
}

/// `a` with the entries from position `k` on divided by the real scalar
/// `d`; the entries before `k` are untouched.
pub open spec fn div_re_seq_from(a: Seq<Complex64>, d: Complex64, k: int) -> Seq<Complex64> {
    Seq::new(a.len(), |i: int| if i < k { a[i] } else { div_re_of(a[i], d) })
}

/// The columns of a matrix held as a vector of column vectors, as a
/// sequence of sequences.
pub open spec fn cols_of(m: Seq<Vec<Complex64>>) -> Seq<Seq<Complex64>> {
    m.map_values(|c: Vec<Complex64>| c@)
}

/// An element-for-element copy of `x`.
pub fn copy_vec(x: &Vec<Complex64>) -> (r: Vec<Complex64>)
    ensures
        r@ == x@,
{
    let mut r: Vec<Complex64> = Vec::new();
    let mut i: usize = 0;
    while i < x.len()
        invariant
            0 <= i <= x@.len(),
            r@ == x@.take(i as int),
        decreases x@.len() - i,
    {
        r.push(x[i]);
        assert(r@ =~= x@.take(i + 1));
        i += 1;
    }
    assert(x@.take(x@.len() as int) =~= x@);
    r
}

/// A vector of `n` zero entries.
pub fn zeros(n: usize) -> (r: Vec<Complex64>)
    ensures
        r@.len() == n,
        forall|i: int| 0 <= i < n ==> r@[i] == c_of_nat(0),
{
    let z = c_from_u64(0);
    let mut r: Vec<Complex64> = Vec::new();
    let mut i: usize = 0;
    while i < n
        invariant
            0 <= i <= n,
            z == c_of_nat(0),
            r@.len() == i,
            forall|j: int| 0 <= j < i ==> r@[j] == c_of_nat(0),
        decreases n - i,
    {
        r.push(z);
        assert(r@[i as int] == z);
        i += 1;
    }
    r
}

/// The inner product of `x` and `y` restricted to the entries from
/// position `k` on.
pub fn inner_from(x: &Vec<Complex64>, y: &Vec<Complex64>, k: usize) -> (r: Complex64)
    requires
        x@.len() == y@.len(),
        k <= x@.len(),
    ensures
        r == inner_seq(x@.skip(k as int), y@.skip(k as int)),
{
    let ghost xs = x@.skip(k as int);
    let ghost ys = y@.skip(k as int);
    let mut acc = c_from_u64(0);
    let mut i: usize = k;
    while i < x.len()
        invariant
            k <= i <= x@.len(),
            x@.len() == y@.len(),
            xs == x@.skip(k as int),
            ys == y@.skip(k as int),
            acc == inner_prefix(xs, ys, i - k),
        decreases x@.len() - i,
    {
        assert(xs[i - k] == x@[i as int]);
        assert(ys[i - k] == y@[i as int]);
        acc = c_add(acc, c_mul(c_conj(x[i]), y[i]));
        i += 1;
    }
    acc
}

/// The inner product of `x` and `y`.
pub fn inner(x: &Vec<Complex64>, y: &Vec<Complex64>) -> (r: Complex64)
    requires
        x@.len() == y@.len(),
    ensures
        r == inner_seq(x@, y@),
{
    let r = inner_from(x, y, 0);
    assert(x@.skip(0) =~= x@);
    assert(y@.skip(0) =~= y@);
    r
}

/// The Euclidean norm of the entries of `x` from position `k` on.
pub fn norm_from(x: &Vec<Complex64>, k: usize) -> (r: Complex64)
    requires
        k <= x@.len(),
    ensures
        r == norm_seq(x@.skip(k as int)),
{
    let ghost xs = x@.skip(k as int);
    let mut acc = c_from_u64(0);
    let mut i: usize = k;
    while i < x.len()
        invariant
            k <= i <= x@.len(),
            xs == x@.skip(k as int),
            acc == sumsq_prefix(xs, i - k),
        decreases x@.len() - i,
    {
        assert(xs[i - k] == x@[i as int]);
        acc = c_add(acc, c_norm_sqr(x[i]));
        i += 1;
    }
    c_sqrt_re(acc)
}

/// The Euclidean norm of `x`.
pub fn norm_l2(x: &Vec<Complex64>) -> (r: Complex64)
    ensures
        r == norm_seq(x@),
{
    let r = norm_from(x, 0);
    assert(x@.skip(0) =~= x@);
    r
}

/// Subtracts `c` times `q` from `a` in place.
pub fn sub_scaled(a: &mut Vec<Complex64>, c: Complex64, q: &Vec<Complex64>)
    requires
        old(a)@.len() == q@.len(),
    ensures
        final(a)@ == sub_scaled_seq(old(a)@, c, q@),
{
    let n = a.len();
    let mut i: usize = 0;
    while i < n
        invariant
            0 <= i <= n,
            n == old(a)@.len(),
            a@.len() == n,
            q@.len() == n,
            forall|j: int| i <= j < n ==> a@[j] == old(a)@[j],
            forall|j: int| 0 <= j < i ==> a@[j] == sub_of(old(a)@[j], mul_of(c, q@[j])),
        decreases n - i,
    {
        a[i] = c_sub(a[i], c_mul(c, q[i]));
        i += 1;
    }
    assert(a@ =~= sub_scaled_seq(old(a)@, c, q@));
}

/// Divides the entries of `a` from position `k` on by the real scalar `d`,
/// in place.
pub fn div_re_from(a: &mut Vec<Complex64>, d: Complex64, k: usize)
    requires
        k <= old(a)@.len(),
    ensures
        final(a)@ == div_re_seq_from(old(a)@, d, k as int),
{
    let n = a.len();
    let mut i: usize = k;
    while i < n
        invariant
            k <= i <= n,
            n == old(a)@.len(),
            a@.len() == n,
            forall|j: int| 0 <= j < k ==> a@[j] == old(a)@[j],
            forall|j: int| i <= j < n ==> a@[j] == old(a)@[j],
            forall|j: int| k <= j < i ==> a@[j] == div_re_of(old(a)@[j], d),
        decreases n - i,
    {
        a[i] = c_div_re(a[i], d);
        i += 1;
    }
    assert(a@ =~= div_re_seq_from(old(a)@, d, k as int));
}

} // verus!
