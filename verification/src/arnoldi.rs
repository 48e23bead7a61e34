//! The modified Gram-Schmidt orthogonalizer, and a standalone online QR
//! decomposition built on it that assembles a square triangular factor.

use vstd::prelude::*;

verus! {

use num_complex::Complex64;
use crate::model::{mgs_coef, mgs_next, mgs_residual, mgs_residual_pre, OrthoModel};
use crate::scalar::{c_of_nat, c_re_lt};
use crate::vecops::{
    cols_of, copy_vec, div_re_from, div_re_seq_from, inner, inner_seq, norm_l2, norm_seq,
    sub_scaled, sub_scaled_seq,
};
use crate::{assemble_r, qr_run, run_ortho, Orthogonalizer};
pub use crate::Strategy;

/// Iterative orthogonalizer using the modified Gram-Schmidt procedure:
/// the orthonormal basis is kept explicitly, one column vector per
/// accepted input.
pub struct MGS {
    /// Dimension of the ambient space.
    dimension: usize,
    /// The orthonormal basis of the spanned space, in acceptance order.
    q: Vec<Vec<Complex64>>,
}

impl MGS {
    /// The columns of the stored basis.
    pub closed spec fn basis(&self) -> Seq<Seq<Complex64>> {
        cols_of(self.q@)
    }

    /// Every stored basis vector has the ambient length.
    pub closed spec fn inv(&self) -> bool {
        forall|i: int|
            0 <= i < self.q@.len() ==> (#[trigger] self.q@[i])@.len() == self.dimension
    }

    /// The abstract state: the stored basis columns.
    pub closed spec fn abs(&self) -> OrthoModel {
        OrthoModel::GramSchmidt { basis: cols_of(self.q@), dim: self.dimension as int }
    }

    /// Creates an empty basis for ambient dimension `dimension`.
    pub fn new(dimension: usize) -> (r: Self)
        ensures
            r.wf(),
            r.model() == (OrthoModel::GramSchmidt { basis: Seq::<Seq<Complex64>>::empty(), dim: dimension as int }),
    {
        let r = MGS { dimension, q: Vec::new() };
        proof {
            assert(cols_of(r.q@) =~= Seq::<Seq<Complex64>>::empty());
        }
        r
    }

    /// The Gram-Schmidt sweep: projects `a` against each basis vector in
    /// turn, subtracting each projection before the next inner product
    /// is taken, and returns the projection coefficients with the
    /// residual norm appended.
    fn sweep(&self, a: &mut Vec<Complex64>) -> (coef: Vec<Complex64>)
        requires
            self.inv(),
            old(a)@.len() == self.dimension,
        ensures
            final(a)@ == mgs_residual(self.basis(), old(a)@),
            final(a)@.len() == old(a)@.len(),
            coef@ == mgs_coef(self.basis(), old(a)@),
    {
        let ghost basis = cols_of(self.q@);
        let ghost a0 = a@;
        let mut coef: Vec<Complex64> = Vec::new();
        let mut i: usize = 0;
        while i < self.q.len()
            invariant
                self.inv(),
                basis == cols_of(self.q@),
                a0.len() == self.dimension,
                0 <= i <= self.q@.len(),
                a@ == mgs_residual_pre(basis, a0, i as int),
                a@.len() == self.dimension,
                coef@.len() == i,
                forall|j: int|
                    0 <= j < i ==> coef@[j] == inner_seq(basis[j], mgs_residual_pre(basis, a0, j)),
            decreases self.q@.len() - i,
        {
            assert(basis[i as int] == self.q@[i as int]@);
            let c = inner(&self.q[i], a);
            sub_scaled(a, c, &self.q[i]);
            coef.push(c);
            assert(a@ == mgs_residual_pre(basis, a0, i + 1));
            i += 1;
        }
        let nrm = norm_l2(a);
        coef.push(nrm);
        proof {
            assert(coef@ =~= mgs_coef(basis, a0));
        }
        coef
    }
}

impl Orthogonalizer for MGS {
    closed spec fn wf(&self) -> bool {
        self.inv()
    }

    closed spec fn model(&self) -> OrthoModel {
        self.abs()
    }

    fn new(dim: usize) -> (r: Self) {
        MGS::new(dim)
    }

    fn dim(&self) -> (r: usize) {
        self.dimension
    }

    fn len(&self) -> (r: usize) {
        self.q.len()
    }

    fn is_full(&self) -> (r: bool) {
        self.q.len() == self.dimension
    }

    fn orthogonalize(&self, a: &mut Vec<Complex64>) -> (r: Complex64) {
        let coef = self.sweep(a);
        coef[coef.len() - 1]
    }

    fn append(&mut self, a: Vec<Complex64>, rtol: Complex64) -> (r: Result<
        Vec<Complex64>,
        Vec<Complex64>,
    >) {
        let ghost basis = cols_of(self.q@);
        let mut a = a;
        let ghost a0 = a@;
        let coef = self.sweep(&mut a);
        let nrm = coef[coef.len() - 1];
        assert(nrm == norm_seq(mgs_residual(basis, a0)));
        if c_re_lt(nrm, rtol) {
            // Linearly dependent: the state is left untouched.
            return Err(coef);
        }
        let ghost resid = a@;
        div_re_from(&mut a, nrm, 0);
        proof {
            assert(a@ =~= div_re_seq_from(resid, norm_seq(resid), 0));
            assert(a@.len() == self.dimension as int);
        }
        self.q.push(a);
        proof {
            assert(forall|i: int|
                0 <= i < self.q@.len() ==> (#[trigger] self.q@[i])@.len() == self.dimension);
            assert(cols_of(self.q@) =~= mgs_next(basis, a0));
        }
        Ok(coef)
    }

    fn get_q(&self) -> (q: Vec<Vec<Complex64>>) {
        let mut q: Vec<Vec<Complex64>> = Vec::new();
        let mut j: usize = 0;
        while j < self.q.len()
            invariant
                self.inv(),
                0 <= j <= self.q@.len(),
                q@.len() == j,
                forall|l: int| 0 <= l < j ==> (#[trigger] q@[l])@ == self.q@[l]@,
            decreases self.q@.len() - j,
        {
            let col = copy_vec(&self.q[j]);
            q.push(col);
            j += 1;
        }
        proof {
            assert(cols_of(q@) =~= cols_of(self.q@));
        }
        q
    }
}

/// Online QR decomposition using modified Gram-Schmidt, with the
/// triangular factor assembled as a square matrix: one column per
/// retained coefficient vector, of that same count's height, the
/// coefficients at the top and zeroes below.
pub fn mgs(
    inputs: &Vec<Vec<Complex64>>,
    dim: usize,
    rtol: Complex64,
    strategy: Strategy,
) -> (out: (Vec<Vec<Complex64>>, Vec<Vec<Complex64>>))
    requires
        forall|i: int| 0 <= i < inputs@.len() ==> (#[trigger] inputs@[i])@.len() == dim,
    ensures
        ({
            let run = qr_run(
                OrthoModel::GramSchmidt { basis: Seq::<Seq<Complex64>>::empty(), dim: dim as int },
                cols_of(inputs@),
                rtol,
                strategy,
            );
            let fin = run.0;
            let coefs = run.1;
            &&& out.0@.len() == fin.len()
            &&& (forall|j: int|
                0 <= j < out.0@.len() ==> (#[trigger] out.0@[j])@.len() == dim)
            &&& cols_of(out.0@) == fin.q_cols()
            &&& out.1@.len() == coefs.len()
            &&& (forall|j: int|
                0 <= j < out.1@.len() ==> (#[trigger] out.1@[j])@.len() == coefs.len())
            &&& (forall|j: int, i: int|
                0 <= j < coefs.len() && 0 <= i < coefs.len() ==> #[trigger] out.1@[j]@[i] == (
                if i < coefs[j].len() {
                    coefs[j][i]
                } else {
                    c_of_nat(0)
                }))
        }),
{
    let ghost total = qr_run(
        OrthoModel::GramSchmidt { basis: Seq::<Seq<Complex64>>::empty(), dim: dim as int },
        cols_of(inputs@),
        rtol,
        strategy,
    );
    let ortho = MGS::new(dim);
    let (ortho, coefs) = run_ortho(inputs, ortho, rtol, strategy);
    let q = ortho.get_q();
    let m = coefs.len();
    let rmat = assemble_r(&coefs, m);
    proof {
        assert(forall|w: int| 0 <= w < coefs@.len() ==> total.1[w] == (#[trigger] coefs@[w])@);
    }
    (q, rmat)
}

} // verus!
