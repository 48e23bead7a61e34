//! The Householder-reflection orthogonalizer: the basis is kept
//! implicitly, as a growing list of reflector vectors, and recovered on
//! demand by carrying unit vectors back through the reflections.
//!
//! The sign-stabilized reflector construction (the residual norm is
//! added to a non-negative pivot rather than subtracted, to avoid
//! cancellation) flips the orientation of the implied basis vector.
//! Each reflector's orientation is recorded, and both the coefficient
//! vectors and the recovered basis are reported against consistently
//! oriented basis vectors.

use vstd::prelude::*;

verus! {

use num_complex::Complex64;
use crate::model::{
    hh_coef, hh_forward, hh_forward_pre, hh_new_reflector, hh_pivot_flip, hh_q_cols,
    hh_residual_norm, hh_backward_pre, reflect_seq, signed_of, unit_col, OrthoModel,
};
use crate::scalar::{c_add, c_from_u64, c_mul, c_neg, c_re, c_re_lt, c_sub};
use crate::vecops::{cols_of, div_re_from, div_re_seq_from, inner_from, norm_from, norm_seq, zeros};
use crate::Orthogonalizer;

/// Iterative orthogonalizer using Householder reflection.
pub struct Householder {
    /// Dimension of the ambient space.
    dim: usize,
    /// The stored reflector vectors, in acceptance order; the `k`-th
    /// acts on the entries from position `k` on.
    v: Vec<Vec<Complex64>>,
    /// Whether the `k`-th reflector flips the orientation of the `k`-th
    /// implied basis vector.
    signs: Vec<bool>,
}

impl Householder {
    /// The columns of the stored reflector list.
    pub closed spec fn reflectors(&self) -> Seq<Seq<Complex64>> {
        cols_of(self.v@)
    }

    /// At most `dim` reflectors, each of the ambient length, one
    /// orientation record per reflector.
    pub closed spec fn inv(&self) -> bool {
        &&& self.v@.len() <= self.dim
        &&& self.signs@.len() == self.v@.len()
        &&& forall|i: int| 0 <= i < self.v@.len() ==> (#[trigger] self.v@[i])@.len() == self.dim
    }

    /// The abstract state: reflectors, orientations, and the dimension.
    pub closed spec fn abs(&self) -> OrthoModel {
        OrthoModel::Reflection {
            vs: cols_of(self.v@),
            signs: self.signs@,
            dim: self.dim as int,
        }
    }

    /// Creates an empty reflector list for ambient dimension `dim`.
    pub fn new(dim: usize) -> (r: Self)
        ensures
            r.wf(),
            r.model() == (OrthoModel::Reflection {
                vs: Seq::<Seq<Complex64>>::empty(),
                signs: Seq::<bool>::empty(),
                dim: dim as int,
            }),
    {
        let r = Householder { dim, v: Vec::new(), signs: Vec::new() };
        proof {
            assert(cols_of(r.v@) =~= Seq::<Seq<Complex64>>::empty());
            assert(r.signs@ =~= Seq::<bool>::empty());
        }
        r
    }

    /// Applies the reflection `P = I - 2 w w^*` of the `k`-th stored
    /// reflector to `a`, restricted to the entries from position `k` on.
    pub fn reflect(&self, k: usize, a: &mut Vec<Complex64>)
        requires
            self.inv(),
            k < self.reflectors().len(),
            old(a)@.len() == self.abs().dim(),
        ensures
            final(a)@ == reflect_seq(self.reflectors()[k as int], k as int, old(a)@),
            final(a)@.len() == old(a)@.len(),
    {
        let ghost a0 = a@;
        let ghost w0 = self.v@[k as int]@;
        let w = &self.v[k];
        let c = c_mul(c_from_u64(2), inner_from(w, a, k));
        let ghost cs = c;
        let n = a.len();
        let mut l: usize = k;
        while l < n
            invariant
                k <= l <= n,
                n == a0.len(),
                a@.len() == n,
                w0.len() == n,
                w@ == w0,
                cs == c,
                forall|j: int| 0 <= j < k ==> a@[j] == a0[j],
                forall|j: int| l <= j < n ==> a@[j] == a0[j],
                forall|j: int|
                    k <= j < l ==> a@[j] == crate::scalar::sub_of(
                        a0[j],
                        crate::scalar::mul_of(cs, w0[j]),
                    ),
            decreases n - l,
        {
            a[l] = c_sub(a[l], c_mul(c, w[l]));
            l += 1;
        }
        proof {
            assert(a@ =~= reflect_seq(w0, k as int, a0));
        }
    }
}

impl Orthogonalizer for Householder {
    closed spec fn wf(&self) -> bool {
        self.inv()
    }

    closed spec fn model(&self) -> OrthoModel {
        self.abs()
    }

    fn new(dim: usize) -> (r: Self) {
        Householder::new(dim)
    }

    fn dim(&self) -> (r: usize) {
        self.dim
    }

    fn len(&self) -> (r: usize) {
        self.v.len()
    }

    fn is_full(&self) -> (r: bool) {
        self.v.len() == self.dim
    }

    fn orthogonalize(&self, a: &mut Vec<Complex64>) -> (r: Complex64) {
        let ghost vs = cols_of(self.v@);
        let ghost a0 = a@;
        let mut k: usize = 0;
        while k < self.v.len()
            invariant
                self.inv(),
                vs == cols_of(self.v@),
                a0.len() == self.dim,
                0 <= k <= self.v@.len(),
                a@ == hh_forward_pre(vs, a0, k as int),
                a@.len() == self.dim,
            decreases self.v@.len() - k,
        {
            assert(vs[k as int] == self.v@[k as int]@);
            self.reflect(k, a);
            k += 1;
        }
        if self.v.len() == self.dim {
            c_from_u64(0)
        } else {
            norm_from(a, self.v.len())
        }
    }

    fn append(&mut self, a: Vec<Complex64>, rtol: Complex64) -> (r: Result<
        Vec<Complex64>,
        Vec<Complex64>,
    >) {
        let ghost vs = cols_of(self.v@);
        let ghost signs0 = self.signs@;
        let mut a = a;
        let ghost a0 = a@;
        let alpha = self.orthogonalize(&mut a);
        let ghost t = a@;

        let mut coef: Vec<Complex64> = Vec::new();
        let mut i: usize = 0;
        while i < self.v.len()
            invariant
                self.inv(),
                vs == cols_of(self.v@),
                signs0 == self.signs@,
                a@ == t,
                t.len() == self.dim,
                0 <= i <= self.v@.len(),
                coef@.len() == i,
                forall|j: int| 0 <= j < i ==> coef@[j] == signed_of(t[j], signs0[j]),
            decreases self.v@.len() - i,
        {
            let e = if self.signs[i] {
                c_neg(a[i])
            } else {
                a[i]
            };
            coef.push(e);
            i += 1;
        }
        coef.push(alpha);
        proof {
            assert(coef@ =~= hh_coef(vs, signs0, a0, self.dim as int));
        }

        if self.v.len() == self.dim {
            // The basis already spans the whole space: the residual is
            // zero by construction and the vector is rejected, which
            // keeps the reflector count within the dimension.
            return Err(coef);
        }
        if c_re_lt(alpha, rtol) {
            return Err(coef);
        }

        let k = self.v.len();
        let xi = c_re(a[k]);
        let zero = c_from_u64(0);
        let flip = c_re_lt(zero, xi);
        proof {
            assert(flip == hh_pivot_flip(t, k as int));
        }
        let piv = if flip {
            c_add(xi, alpha)
        } else {
            c_sub(xi, alpha)
        };
        a[k] = piv;
        let ghost b = t.update(k as int, piv);
        let nrm = norm_from(&a, k);
        div_re_from(&mut a, nrm, k);
        proof {
            assert(a@ =~= div_re_seq_from(b, norm_seq(b.skip(k as int)), k as int));
            assert(a@ == hh_new_reflector(vs, a0, self.dim as int));
            assert(a@.len() == self.dim as int);
        }
        self.v.push(a);
        self.signs.push(flip);
        proof {
            assert(forall|i: int|
                0 <= i < self.v@.len() ==> (#[trigger] self.v@[i])@.len() == self.dim);
            assert(cols_of(self.v@) =~= vs.push(hh_new_reflector(vs, a0, self.dim as int)));
            assert(self.signs@ =~= signs0.push(hh_pivot_flip(t, vs.len() as int)));
        }
        Ok(coef)
    }

    fn get_q(&self) -> (q: Vec<Vec<Complex64>>) {
        let ghost vs = cols_of(self.v@);
        let ghost signs0 = self.signs@;
        let ghost d = self.dim as int;
        let n = self.v.len();
        let mut q: Vec<Vec<Complex64>> = Vec::new();
        let mut j: usize = 0;
        while j < n
            invariant
                self.inv(),
                vs == cols_of(self.v@),
                signs0 == self.signs@,
                d == self.dim as int,
                n == self.v@.len(),
                0 <= j <= n,
                q@.len() == j,
                forall|l: int| 0 <= l < j ==> (#[trigger] q@[l])@.len() == d,
                forall|l: int| 0 <= l < j ==> (#[trigger] q@[l])@ == hh_q_cols(vs, signs0, d)[l],
            decreases n - j,
        {
            let mut col = zeros(self.dim);
            let one = c_from_u64(1);
            let e = if self.signs[j] {
                c_neg(one)
            } else {
                one
            };
            col[j] = e;
            proof {
                assert(col@ =~= unit_col(d, j as int, signs0[j as int]));
            }
            let ghost e0 = col@;
            let mut l: usize = n;
            while l > 0
                invariant
                    self.inv(),
                    vs == cols_of(self.v@),
                    n == self.v@.len(),
                    0 <= l <= n,
                    col@.len() == self.dim,
                    hh_backward_pre(vs, col@, l as int) == hh_backward_pre(vs, e0, n as int),
                decreases l,
            {
                l -= 1;
                assert(vs[l as int] == self.v@[l as int]@);
                self.reflect(l, &mut col);
            }
            q.push(col);
            proof {
                assert(q@[j as int]@ == hh_backward_pre(vs, e0, n as int));
                assert(hh_q_cols(vs, signs0, d)[j as int] == hh_backward_pre(
                    vs,
                    unit_col(d, j as int, signs0[j as int]),
                    n as int,
                ));
            }
            j += 1;
        }
        proof {
            assert(cols_of(q@) =~= hh_q_cols(vs, signs0, d));
        }
        q
    }
}

} // verus!
