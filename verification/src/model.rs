//! The mathematical model of the two orthogonalization strategies.
//!
//! Every executable routine of the crate is specified against the spec
//! functions here: exact folds of the named scalar operations.  The
//! `OrthoModel` type is the abstract state that the `Orthogonalizer`
//! trait exposes, so that the online QR driver can be verified once,
//! generically, against either strategy.

use vstd::prelude::*;

verus! {

use num_complex::Complex64;
use crate::scalar::{add_of, c_of_nat, mul_of, neg_of, re_lt, re_of, sub_of};
use crate::vecops::{div_re_seq_from, inner_seq, norm_seq, sub_scaled_seq};

// ---------------------------------------------------------------------
// Modified Gram-Schmidt
// ---------------------------------------------------------------------

/// The residual of `a` after projection against the first `k` basis
/// vectors, each projection subtracted before the next inner product is
/// taken (the modified, not the classical, Gram-Schmidt sweep).
pub open spec fn mgs_residual_pre(basis: Seq<Seq<Complex64>>, a: Seq<Complex64>, k: int) -> Seq<
    Complex64,
>
    decreases k,
{
    if k <= 0 {
        a
    } else {
        let r = mgs_residual_pre(basis, a, k - 1);
        sub_scaled_seq(r, inner_seq(basis[k - 1], r), basis[k - 1])
    }
}

/// The residual of `a` after the full Gram-Schmidt sweep.
pub open spec fn mgs_residual(basis: Seq<Seq<Complex64>>, a: Seq<Complex64>) -> Seq<Complex64> {
    mgs_residual_pre(basis, a, basis.len() as int)
}

/// The coefficient vector of appending `a`: the projection coefficient
/// onto each basis vector in turn, and the residual norm last.
pub open spec fn mgs_coef(basis: Seq<Seq<Complex64>>, a: Seq<Complex64>) -> Seq<Complex64> {
    Seq::new(
        basis.len() + 1,
        |i: int|
            if i < basis.len() {
                inner_seq(basis[i], mgs_residual_pre(basis, a, i))
            } else {
                norm_seq(mgs_residual(basis, a))
            },
    )
}

/// The basis after accepting `a`: the residual, normalized, is pushed.
pub open spec fn mgs_next(basis: Seq<Seq<Complex64>>, a: Seq<Complex64>) -> Seq<Seq<Complex64>> {
    basis.push(div_re_seq_from(mgs_residual(basis, a), norm_seq(mgs_residual(basis, a)), 0))
}

// ---------------------------------------------------------------------
// Householder reflection
// ---------------------------------------------------------------------

/// One reflection applied to `a`, restricted to the entries from
/// position `k` on: `a - 2 (w . a) w` over the active sub-block.
pub open spec fn reflect_seq(w: Seq<Complex64>, k: int, a: Seq<Complex64>) -> Seq<Complex64> {
    let c = mul_of(c_of_nat(2), inner_seq(w.skip(k), a.skip(k)));
    Seq::new(a.len(), |i: int| if i < k { a[i] } else { sub_of(a[i], mul_of(c, w[i])) })
}

/// `a` transformed by the first `k` reflectors, applied in storage order.
pub open spec fn hh_forward_pre(vs: Seq<Seq<Complex64>>, a: Seq<Complex64>, k: int) -> Seq<
    Complex64,
>
    decreases k,
{
    if k <= 0 {
        a
    } else {
        reflect_seq(vs[k - 1], k - 1, hh_forward_pre(vs, a, k - 1))
    }
}

/// `a` transformed by all stored reflectors.
pub open spec fn hh_forward(vs: Seq<Seq<Complex64>>, a: Seq<Complex64>) -> Seq<Complex64> {
    hh_forward_pre(vs, a, vs.len() as int)
}

/// The residual norm of appending `a`: the norm of the transformed
/// vector's tail below the next pivot position; zero when the basis is
/// already full, since the tail is then empty.
pub open spec fn hh_residual_norm(vs: Seq<Seq<Complex64>>, a: Seq<Complex64>, dim: int) -> Complex64 {
    if vs.len() >= dim {
        c_of_nat(0)
    } else {
        norm_seq(hh_forward(vs, a).skip(vs.len() as int))
    }
}

/// `t`, negated when `flip` holds.
pub open spec fn signed_of(t: Complex64, flip: bool) -> Complex64 {
    if flip {
        neg_of(t)
    } else {
        t
    }
}

/// Whether the reflector built at pivot position `k` of the transformed
/// vector `t` flips the orientation of the implied basis vector: the
/// sign-stabilized construction adds the residual norm to a positive
/// pivot, which reflects onto the negative axis.
pub open spec fn hh_pivot_flip(t: Seq<Complex64>, k: int) -> bool {
    re_lt(c_of_nat(0), re_of(t[k]))
}

/// The coefficient vector of appending `a`: the leading entries of the
/// transformed vector, each re-oriented by the sign its basis vector
/// carries, and the residual norm last.
pub open spec fn hh_coef(
    vs: Seq<Seq<Complex64>>,
    signs: Seq<bool>,
    a: Seq<Complex64>,
    dim: int,
) -> Seq<Complex64> {
    let t = hh_forward(vs, a);
    Seq::new(
        vs.len() + 1,
        |i: int|
            if i < vs.len() {
                signed_of(t[i], signs[i])
            } else {
                hh_residual_norm(vs, a, dim)
            },
    )
}

/// The reflector stored on accepting `a`: the transformed vector with
/// the residual norm added to or subtracted from the real part of its
/// pivot entry (whichever avoids cancellation), and its tail normalized.
pub open spec fn hh_new_reflector(vs: Seq<Seq<Complex64>>, a: Seq<Complex64>, dim: int) -> Seq<
    Complex64,
> {
    let k = vs.len() as int;
    let t = hh_forward(vs, a);
    let alpha = hh_residual_norm(vs, a, dim);
    let xi = re_of(t[k]);
    let pivot = if re_lt(c_of_nat(0), xi) {
        add_of(xi, alpha)
    } else {
        sub_of(xi, alpha)
    };
    let b = t.update(k, pivot);
    div_re_seq_from(b, norm_seq(b.skip(k)), k)
}

/// The unit vector of length `dim` with a one at position `j`, negated
/// when `flip` holds.
pub open spec fn unit_col(dim: int, j: int, flip: bool) -> Seq<Complex64> {
    Seq::new(dim as nat, |i: int| if i == j { signed_of(c_of_nat(1), flip) } else { c_of_nat(0) })
}

/// `a` transformed by the first `k` reflectors applied in reverse
/// storage order: reflector `k - 1` first, reflector `0` last.
pub open spec fn hh_backward_pre(vs: Seq<Seq<Complex64>>, a: Seq<Complex64>, k: int) -> Seq<
    Complex64,
>
    decreases k,
{
    if k <= 0 {
        a
    } else {
        hh_backward_pre(vs, reflect_seq(vs[k - 1], k - 1, a), k - 1)
    }
}

/// The columns of the orthonormal basis the reflectors imply: each
/// re-oriented unit vector, carried back through all reflectors.
pub open spec fn hh_q_cols(vs: Seq<Seq<Complex64>>, signs: Seq<bool>, dim: int) -> Seq<
    Seq<Complex64>,
> {
    Seq::new(vs.len(), |j: int| hh_backward_pre(vs, unit_col(dim, j, signs[j]), vs.len() as int))
}

// ---------------------------------------------------------------------
// The abstract orthogonalizer state
// ---------------------------------------------------------------------

/// The abstract state of an orthogonalizer: an explicit basis for the
/// Gram-Schmidt strategy, or reflectors with their orientation signs for
/// the Householder strategy.
pub enum OrthoModel {
    GramSchmidt { basis: Seq<Seq<Complex64>>, dim: int },
    Reflection { vs: Seq<Seq<Complex64>>, signs: Seq<bool>, dim: int },
}

impl OrthoModel {
    /// The ambient dimension.
    pub open spec fn dim(self) -> int {
        match self {
            OrthoModel::GramSchmidt { basis: _, dim } => dim,
            OrthoModel::Reflection { vs: _, signs: _, dim } => dim,
        }
    }

    /// The number of accepted basis vectors.
    pub open spec fn len(self) -> int {
        match self {
            OrthoModel::GramSchmidt { basis, dim: _ } => basis.len() as int,
            OrthoModel::Reflection { vs, signs: _, dim: _ } => vs.len() as int,
        }
    }

    /// The vector `a` is carried to by `orthogonalize`: the residual of
    /// the Gram-Schmidt sweep, or the fully reflected vector.
    pub open spec fn residual_vec(self, a: Seq<Complex64>) -> Seq<Complex64> {
        match self {
            OrthoModel::GramSchmidt { basis, dim: _ } => mgs_residual(basis, a),
            OrthoModel::Reflection { vs, signs: _, dim: _ } => hh_forward(vs, a),
        }
    }

    /// The residual norm `orthogonalize` returns for `a`.
    pub open spec fn residual_norm(self, a: Seq<Complex64>) -> Complex64 {
        match self {
            OrthoModel::GramSchmidt { basis, dim: _ } => norm_seq(mgs_residual(basis, a)),
            OrthoModel::Reflection { vs, signs: _, dim } => hh_residual_norm(vs, a, dim),
        }
    }

    /// The coefficient vector `append` returns for `a`, on either path.
    pub open spec fn coef(self, a: Seq<Complex64>) -> Seq<Complex64> {
        match self {
            OrthoModel::GramSchmidt { basis, dim: _ } => mgs_coef(basis, a),
            OrthoModel::Reflection { vs, signs, dim } => hh_coef(vs, signs, a, dim),
        }
    }

    /// Whether `append` accepts `a` under tolerance `rtol`.  The
    /// Householder strategy also rejects every vector once the basis is
    /// full: its residual is zero by construction, and accepting it
    /// would leave no pivot position for a new reflector.
    pub open spec fn accepts(self, a: Seq<Complex64>, rtol: Complex64) -> bool {
        match self {
            OrthoModel::GramSchmidt { basis, dim: _ } => !re_lt(
                norm_seq(mgs_residual(basis, a)),
                rtol,
            ),
            OrthoModel::Reflection { vs, signs: _, dim } => vs.len() < dim && !re_lt(
                hh_residual_norm(vs, a, dim),
                rtol,
            ),
        }
    }

    /// The state after accepting `a`.
    pub open spec fn next(self, a: Seq<Complex64>) -> OrthoModel {
        match self {
            OrthoModel::GramSchmidt { basis, dim } => OrthoModel::GramSchmidt {
                basis: mgs_next(basis, a),
                dim,
            },
            OrthoModel::Reflection { vs, signs, dim } => OrthoModel::Reflection {
                vs: vs.push(hh_new_reflector(vs, a, dim)),
                signs: signs.push(hh_pivot_flip(hh_forward(vs, a), vs.len() as int)),
                dim,
            },
        }
    }

    /// The columns of the orthonormal basis matrix `get_q` returns.
    pub open spec fn q_cols(self) -> Seq<Seq<Complex64>> {
        match self {
            OrthoModel::GramSchmidt { basis, dim: _ } => basis,
            OrthoModel::Reflection { vs, signs, dim } => hh_q_cols(vs, signs, dim),
        }
    }
}

/// A coefficient vector always holds one entry per basis vector and the
/// residual norm: its length is the basis size before the call plus one.
pub proof fn lemma_coef_len(m: OrthoModel, a: Seq<Complex64>)
    ensures
        m.coef(a).len() == m.len() + 1,
{
    match m {
        OrthoModel::GramSchmidt { basis, dim: _ } => {
            assert(mgs_coef(basis, a).len() == basis.len() + 1);
        },
        OrthoModel::Reflection { vs, signs, dim } => {
            assert(hh_coef(vs, signs, a, dim).len() == vs.len() + 1);
        },
    }
}

/// Accepting a vector grows the basis by exactly one.
pub proof fn lemma_next_len(m: OrthoModel, a: Seq<Complex64>)
    ensures
        m.next(a).len() == m.len() + 1,
        m.next(a).dim() == m.dim(),
{
}

} // verus!
