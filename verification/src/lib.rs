//! Incremental orthogonalization and online QR decomposition.
//!
//! The crate builds an orthonormal basis from a stream of vectors, one
//! vector at a time, detecting linear dependence numerically and producing
//! a QR factorization without materializing the full input matrix.  Two
//! interchangeable strategies stand behind one interface: modified
//! Gram-Schmidt, which keeps the basis explicitly, and Householder
//! reflection, which keeps reflectors and recovers the basis on demand.

use vstd::prelude::*;

pub mod arnoldi;
pub mod householder;
pub mod lax;
pub mod model;
pub mod scalar;
pub mod triangular;
pub mod vecops;

verus! {

use num_complex::Complex64;
pub use crate::arnoldi::MGS;
pub use crate::householder::Householder;
use crate::model::OrthoModel;
use crate::scalar::{c_from_u64, c_of_nat, re_lt};
use crate::vecops::{cols_of, copy_vec};

/// An incremental builder of an orthonormal basis: vectors are appended
/// one at a time, each either accepted (extending the basis) or rejected
/// as numerically dependent on the basis so far.
///
/// Every operation is specified against the abstract state `model()`:
/// the exact fold of scalar operations each strategy performs.
pub trait Orthogonalizer: Sized {
    /// The representation invariant of the concrete state.
    spec fn wf(&self) -> bool;

    /// The abstract state.
    spec fn model(&self) -> OrthoModel;

    /// Creates an empty basis for ambient dimension `dim`.
    fn new(dim: usize) -> (r: Self)
        ensures
            r.wf(),
            r.model().dim() == dim,
            r.model().len() == 0,
    ;

    /// The ambient dimension, fixed at construction.
    fn dim(&self) -> (r: usize)
        requires
            self.wf(),
        ensures
            r == self.model().dim(),
    ;

    /// The number of accepted basis vectors.
    fn len(&self) -> (r: usize)
        requires
            self.wf(),
        ensures
            r == self.model().len(),
    ;

    /// Whether the basis already spans the whole ambient space.
    fn is_full(&self) -> (r: bool)
        requires
            self.wf(),
        ensures
            r == (self.model().len() == self.model().dim()),
    ;

    /// Projects `a` onto the orthogonal complement of the current basis,
    /// in place, and returns the residual norm.
    fn orthogonalize(&self, a: &mut Vec<Complex64>) -> (r: Complex64)
        requires
            self.wf(),
            old(a)@.len() == self.model().dim(),
        ensures
            final(a)@ == self.model().residual_vec(old(a)@),
            final(a)@.len() == old(a)@.len(),
            r == self.model().residual_norm(old(a)@),
    ;

    /// Appends `a`: accepted and the basis extended when its residual
    /// norm reaches `rtol`, rejected otherwise.  Either way the
    /// coefficient vector of `a` against the basis is returned.
    fn append(&mut self, a: Vec<Complex64>, rtol: Complex64) -> (r: Result<
        Vec<Complex64>,
        Vec<Complex64>,
    >)
        requires
            old(self).wf(),
            a@.len() == old(self).model().dim(),
        ensures
            final(self).wf(),
            final(self).model().dim() == old(self).model().dim(),
            match r {
                Ok(coef) => old(self).model().accepts(a@, rtol) && coef@ == old(self).model().coef(
                    a@,
                ) && final(self).model() == old(self).model().next(a@) && final(self).model().len()
                    == old(self).model().len() + 1,
                Err(coef) => !old(self).model().accepts(a@, rtol) && coef@ == old(
                    self,
                ).model().coef(a@) && final(self).model() == old(self).model(),
            },
    ;

    /// The accepted basis as a matrix: one column per basis vector, in
    /// acceptance order.  An empty basis yields a matrix of no columns.
    fn get_q(&self) -> (q: Vec<Vec<Complex64>>)
        requires
            self.wf(),
        ensures
            q@.len() == self.model().len(),
            forall|j: int| 0 <= j < q@.len() ==> (#[trigger] q@[j])@.len() == self.model().dim(),
            cols_of(q@) == self.model().q_cols(),
    ;
}

/// Strategy for linearly dependent vectors appearing in the online QR
/// decomposition.
#[derive(Clone, Copy, Debug, PartialEq, Eq, Structural)]
pub enum Strategy {
    /// Terminate the iteration when a dependent vector comes.
    Terminate,
    /// Skip dependent vectors.
    Skip,
    /// Keep the coefficient column of a dependent vector without growing
    /// the basis, so that R gains a rank-deficient column by design.
    Full,
}

/// The run of the online QR driver over `inputs`, from the abstract
/// state `m`: the final state, and the retained coefficient columns in
/// order.
pub open spec fn qr_run(
    m: OrthoModel,
    inputs: Seq<Seq<Complex64>>,
    rtol: Complex64,
    strategy: Strategy,
) -> (OrthoModel, Seq<Seq<Complex64>>)
    decreases inputs.len(),
{
    if inputs.len() == 0 {
        (m, Seq::empty())
    } else {
        let a = inputs[0];
        let rest = inputs.drop_first();
        if m.accepts(a, rtol) {
            let sub = qr_run(m.next(a), rest, rtol, strategy);
            (sub.0, seq![m.coef(a)] + sub.1)
        } else {
            match strategy {
                Strategy::Terminate => (m, Seq::empty()),
                Strategy::Skip => qr_run(m, rest, rtol, strategy),
                Strategy::Full => {
                    let sub = qr_run(m, rest, rtol, strategy);
                    (sub.0, seq![m.coef(a)] + sub.1)
                },
            }
        }
    }
}

/// A vector whose residual norm is exactly zero is rejected under any
/// positive tolerance, whichever strategy holds the basis.
pub proof fn lemma_zero_residual_rejected(m: OrthoModel, a: Seq<Complex64>, rtol: Complex64)
    requires
        m.residual_norm(a) == c_of_nat(0),
        re_lt(c_of_nat(0), rtol),
    ensures
        !m.accepts(a, rtol),
{
}

/// A full reflection basis rejects every vector: once as many
/// reflectors as dimensions are stored, the residual is zero by
/// construction, no vector is accepted, and the reflector count can
/// never pass the dimension.
pub proof fn lemma_full_reflection_rejects(m: OrthoModel, a: Seq<Complex64>, rtol: Complex64)
    requires
        m is Reflection,
        m.len() == m.dim(),
    ensures
        !m.accepts(a, rtol),
{
}

/// Policy divergence: for a three-vector input whose first and third
/// vectors are accepted and whose second is dependent, Terminate stops
/// with a one-column basis and one coefficient column, Skip ends with a
/// two-column basis and two coefficient columns, and Full ends with a
/// two-column basis but three coefficient columns.
pub proof fn lemma_policy_divergence(
    m: OrthoModel,
    inputs: Seq<Seq<Complex64>>,
    rtol: Complex64,
)
    requires
        inputs.len() == 3,
        m.accepts(inputs[0], rtol),
        !m.next(inputs[0]).accepts(inputs[1], rtol),
        m.next(inputs[0]).accepts(inputs[2], rtol),
    ensures
        qr_run(m, inputs, rtol, Strategy::Terminate).0.len() == m.len() + 1,
        qr_run(m, inputs, rtol, Strategy::Terminate).1.len() == 1,
        qr_run(m, inputs, rtol, Strategy::Skip).0.len() == m.len() + 2,
        qr_run(m, inputs, rtol, Strategy::Skip).1.len() == 2,
        qr_run(m, inputs, rtol, Strategy::Full).0.len() == m.len() + 2,
        qr_run(m, inputs, rtol, Strategy::Full).1.len() == 3,
{
    let m1 = m.next(inputs[0]);
    let m2 = m1.next(inputs[2]);
    let rest1 = inputs.drop_first();
    assert(rest1[0] == inputs[1]);
    assert(rest1[1] == inputs[2]);
    let rest2 = rest1.drop_first();
    assert(rest2[0] == inputs[2]);
    let rest3 = rest2.drop_first();
    assert(rest3.len() == 0);
    assert(m1.len() == m.len() + 1);
    assert(m2.len() == m.len() + 2);

    assert(qr_run(m1, rest1, rtol, Strategy::Terminate) == (m1, Seq::<Seq<Complex64>>::empty()));
    assert(qr_run(m, inputs, rtol, Strategy::Terminate).0 == m1);
    assert(qr_run(m, inputs, rtol, Strategy::Terminate).1.len() == 1);

    assert(qr_run(m2, rest3, rtol, Strategy::Skip) == (m2, Seq::<Seq<Complex64>>::empty()));
    assert(qr_run(m1, rest2, rtol, Strategy::Skip).0 == m2);
    assert(qr_run(m1, rest2, rtol, Strategy::Skip).1.len() == 1);
    assert(qr_run(m1, rest1, rtol, Strategy::Skip) == qr_run(m1, rest2, rtol, Strategy::Skip));
    assert(qr_run(m, inputs, rtol, Strategy::Skip).0 == m2);
    assert(qr_run(m, inputs, rtol, Strategy::Skip).1.len() == 2);

    assert(qr_run(m2, rest3, rtol, Strategy::Full) == (m2, Seq::<Seq<Complex64>>::empty()));
    assert(qr_run(m1, rest2, rtol, Strategy::Full).0 == m2);
    assert(qr_run(m1, rest2, rtol, Strategy::Full).1.len() == 1);
    assert(qr_run(m1, rest1, rtol, Strategy::Full).0 == m2);
    assert(qr_run(m1, rest1, rtol, Strategy::Full).1.len() == 2);
    assert(qr_run(m, inputs, rtol, Strategy::Full).0 == m2);
    assert(qr_run(m, inputs, rtol, Strategy::Full).1.len() == 3);
}

/// Under the Terminate and Skip strategies every retained coefficient
/// column came from an accepted vector, so the triangular factor is
/// genuinely triangular: column `j` holds exactly `j + 1` coefficients
/// beyond those for the initial basis, and the basis has grown by one
/// vector per retained column.
pub proof fn lemma_triangular_run(
    m: OrthoModel,
    inputs: Seq<Seq<Complex64>>,
    rtol: Complex64,
    strategy: Strategy,
)
    requires
        strategy == Strategy::Terminate || strategy == Strategy::Skip,
    ensures
        ({
            let run = qr_run(m, inputs, rtol, strategy);
            run.0.len() == m.len() + run.1.len() && (forall|j: int|
                0 <= j < run.1.len() ==> (#[trigger] run.1[j]).len() == m.len() + j + 1)
        }),
    decreases inputs.len(),
{
    if inputs.len() == 0 {
    } else {
        let a = inputs[0];
        let rest = inputs.drop_first();
        if m.accepts(a, rtol) {
            crate::model::lemma_coef_len(m, a);
            crate::model::lemma_next_len(m, a);
            lemma_triangular_run(m.next(a), rest, rtol, strategy);
            let sub = qr_run(m.next(a), rest, rtol, strategy);
            assert(qr_run(m, inputs, rtol, strategy).1 == seq![m.coef(a)] + sub.1);
            assert forall|j: int| 0 <= j < sub.1.len() + 1 implies (#[trigger] (seq![m.coef(a)]
                + sub.1)[j]).len() == m.len() + j + 1 by {
                if j == 0 {
                    assert((seq![m.coef(a)] + sub.1)[0] == m.coef(a));
                } else {
                    assert((seq![m.coef(a)] + sub.1)[j] == sub.1[j - 1]);
                }
            }
        } else {
            if strategy == Strategy::Skip {
                lemma_triangular_run(m, rest, rtol, strategy);
            }
        }
    }
}

/// What the online QR driver returns for initial state `m0` and inputs
/// `inputs`: `q` holds the final basis columns, and `r` one column of
/// height `len` per retained coefficient vector, zero-padded below the
/// coefficients.
pub open spec fn qr_post(
    m0: OrthoModel,
    inputs: Seq<Seq<Complex64>>,
    rtol: Complex64,
    strategy: Strategy,
    q: Vec<Vec<Complex64>>,
    r: Vec<Vec<Complex64>>,
) -> bool {
    let run = qr_run(m0, inputs, rtol, strategy);
    let fin = run.0;
    let coefs = run.1;
    &&& q@.len() == fin.len()
    &&& (forall|j: int| 0 <= j < q@.len() ==> (#[trigger] q@[j])@.len() == fin.dim())
    &&& cols_of(q@) == fin.q_cols()
    &&& r@.len() == coefs.len()
    &&& (forall|j: int| 0 <= j < r@.len() ==> (#[trigger] r@[j])@.len() == fin.len())
    &&& (forall|j: int, i: int|
        0 <= j < r@.len() && 0 <= i < fin.len() ==> #[trigger] r@[j]@[i] == (if i
            < coefs[j].len() {
            coefs[j][i]
        } else {
            c_of_nat(0)
        }))
}

/// The driver loop shared by the QR entry points: consumes the input
/// vectors in order, appends each, and branches on the dependency
/// strategy when one is rejected.  Returns the final orthogonalizer
/// state and the retained coefficient vectors.
pub(crate) fn run_ortho<T: Orthogonalizer>(
    inputs: &Vec<Vec<Complex64>>,
    ortho: T,
    rtol: Complex64,
    strategy: Strategy,
) -> (out: (T, Vec<Vec<Complex64>>))
    requires
        ortho.wf(),
        ortho.model().len() == 0,
        forall|i: int|
            0 <= i < inputs@.len() ==> (#[trigger] inputs@[i])@.len() == ortho.model().dim(),
    ensures
        out.0.wf(),
        out.0.model().dim() == ortho.model().dim(),
        out.0.model() == qr_run(ortho.model(), cols_of(inputs@), rtol, strategy).0,
        cols_of(out.1@) == qr_run(ortho.model(), cols_of(inputs@), rtol, strategy).1,
{
    let ghost m0 = ortho.model();
    let ghost allcols = cols_of(inputs@);
    let ghost total = qr_run(m0, allcols, rtol, strategy);
    let mut ortho = ortho;
    let mut coefs: Vec<Vec<Complex64>> = Vec::new();
    let n = inputs.len();
    let mut j: usize = 0;
    let mut stopped = false;
    proof {
        assert(allcols.skip(0) =~= allcols);
        assert(cols_of(coefs@) =~= Seq::<Seq<Complex64>>::empty());
        assert(Seq::<Seq<Complex64>>::empty() + total.1 =~= total.1);
    }
    while j < n && !stopped
        invariant
            0 <= j <= n,
            n == inputs@.len(),
            allcols == cols_of(inputs@),
            total == qr_run(m0, allcols, rtol, strategy),
            forall|i: int| 0 <= i < inputs@.len() ==> (#[trigger] inputs@[i])@.len() == m0.dim(),
            ortho.wf(),
            ortho.model().dim() == m0.dim(),
            !stopped ==> ({
                let sub = qr_run(ortho.model(), allcols.skip(j as int), rtol, strategy);
                total.0 == sub.0 && total.1 == cols_of(coefs@) + sub.1
            }),
            stopped ==> total.0 == ortho.model() && total.1 == cols_of(coefs@),
        decreases n - j,
    {
        let a = copy_vec(&inputs[j]);
        let ghost pre = ortho.model();
        let ghost rest = allcols.skip(j as int);
        proof {
            assert(allcols[j as int] == inputs@[j as int]@);
            assert(rest[0] == allcols[j as int]);
            assert(rest.drop_first() =~= allcols.skip(j as int + 1));
        }
        match ortho.append(a, rtol) {
            Ok(coef) => {
                proof {
                    assert(cols_of(coefs@.push(coef)) =~= cols_of(coefs@).push(coef@));
                    assert(cols_of(coefs@) + (seq![pre.coef(rest[0])] + qr_run(
                        pre.next(rest[0]),
                        rest.drop_first(),
                        rtol,
                        strategy,
                    ).1) =~= cols_of(coefs@).push(coef@) + qr_run(
                        pre.next(rest[0]),
                        rest.drop_first(),
                        rtol,
                        strategy,
                    ).1);
                }
                coefs.push(coef);
            },
            Err(coef) => {
                match strategy {
                    Strategy::Terminate => {
                        proof {
                            assert(cols_of(coefs@) + Seq::<Seq<Complex64>>::empty() =~= cols_of(
                                coefs@,
                            ));
                        }
                        stopped = true;
                    },
                    Strategy::Skip => {
                    },
                    Strategy::Full => {
                        proof {
                            assert(cols_of(coefs@.push(coef)) =~= cols_of(coefs@).push(coef@));
                            assert(cols_of(coefs@) + (seq![pre.coef(rest[0])] + qr_run(
                                pre,
                                rest.drop_first(),
                                rtol,
                                strategy,
                            ).1) =~= cols_of(coefs@).push(coef@) + qr_run(
                                pre,
                                rest.drop_first(),
                                rtol,
                                strategy,
                            ).1);
                        }
                        coefs.push(coef);
                    },
                }
            },
        }
        j += 1;
    }
    proof {
        if !stopped {
            assert(allcols.skip(n as int) =~= Seq::<Seq<Complex64>>::empty());
            assert(cols_of(coefs@) + Seq::<Seq<Complex64>>::empty() =~= cols_of(coefs@));
        }
    }
    (ortho, coefs)
}

/// Assembles the triangular factor from the retained coefficient
/// vectors: one column of the given height per coefficient vector, the
/// coefficients at the top and zeroes below (or the tail of a longer
/// coefficient vector cut off).
pub(crate) fn assemble_r(coefs: &Vec<Vec<Complex64>>, height: usize) -> (r: Vec<Vec<Complex64>>)
    ensures
        r@.len() == coefs@.len(),
        forall|j: int| 0 <= j < r@.len() ==> (#[trigger] r@[j])@.len() == height,
        forall|j: int, i: int|
            0 <= j < r@.len() && 0 <= i < height ==> #[trigger] r@[j]@[i] == (if i
                < coefs@[j]@.len() {
                coefs@[j]@[i]
            } else {
                c_of_nat(0)
            }),
{
    let m = coefs.len();
    let zero = c_from_u64(0);
    let mut rmat: Vec<Vec<Complex64>> = Vec::new();
    let mut u: usize = 0;
    while u < m
        invariant
            0 <= u <= m,
            m == coefs@.len(),
            zero == c_of_nat(0),
            rmat@.len() == u,
            forall|w: int| 0 <= w < u ==> (#[trigger] rmat@[w])@.len() == height,
            forall|w: int, i: int|
                0 <= w < u && 0 <= i < height ==> #[trigger] rmat@[w]@[i] == (if i
                    < coefs@[w]@.len() {
                    coefs@[w]@[i]
                } else {
                    c_of_nat(0)
                }),
        decreases m - u,
    {
        let cj = &coefs[u];
        let mut col: Vec<Complex64> = Vec::new();
        let mut i: usize = 0;
        while i < height
            invariant
                0 <= i <= height,
                zero == c_of_nat(0),
                cj@ == coefs@[u as int]@,
                u < coefs@.len(),
                col@.len() == i,
                forall|w: int|
                    0 <= w < i ==> #[trigger] col@[w] == (if w < cj@.len() {
                        cj@[w]
                    } else {
                        c_of_nat(0)
                    }),
            decreases height - i,
        {
            if i < cj.len() {
                let e = cj[i];
                col.push(e);
                assert(col@[i as int] == cj@[i as int]);
            } else {
                col.push(zero);
                assert(col@[i as int] == c_of_nat(0));
            }
            i += 1;
        }
        rmat.push(col);
        u += 1;
    }
    rmat
}

/// Online QR decomposition using an arbitrary orthogonalizer: consumes
/// the input vectors in order, appends each, branches on the dependency
/// strategy when one is rejected, and assembles the pair `(Q, R)`.
pub fn qr<T: Orthogonalizer>(
    inputs: &Vec<Vec<Complex64>>,
    ortho: T,
    rtol: Complex64,
    strategy: Strategy,
) -> (out: (Vec<Vec<Complex64>>, Vec<Vec<Complex64>>))
    requires
        ortho.wf(),
        ortho.model().len() == 0,
        forall|i: int|
            0 <= i < inputs@.len() ==> (#[trigger] inputs@[i])@.len() == ortho.model().dim(),
    ensures
        qr_post(ortho.model(), cols_of(inputs@), rtol, strategy, out.0, out.1),
{
    let ghost total = qr_run(ortho.model(), cols_of(inputs@), rtol, strategy);
    let (ortho, coefs) = run_ortho(inputs, ortho, rtol, strategy);
    let q = ortho.get_q();
    let rmat = assemble_r(&coefs, ortho.len());
    proof {
        assert(forall|w: int| 0 <= w < coefs@.len() ==> total.1[w] == (#[trigger] coefs@[w])@);
    }
    (q, rmat)
}

/// Online QR decomposition using modified Gram-Schmidt.
pub fn mgs(
    inputs: &Vec<Vec<Complex64>>,
    dim: usize,
    rtol: Complex64,
    strategy: Strategy,
) -> (out: (Vec<Vec<Complex64>>, Vec<Vec<Complex64>>))
    requires
        forall|i: int| 0 <= i < inputs@.len() ==> (#[trigger] inputs@[i])@.len() == dim,
    ensures
        qr_post(
            OrthoModel::GramSchmidt { basis: Seq::<Seq<Complex64>>::empty(), dim: dim as int },
            cols_of(inputs@),
            rtol,
            strategy,
            out.0,
            out.1,
        ),
{
    let o = MGS::new(dim);
    qr(inputs, o, rtol, strategy)
}

/// Online QR decomposition using Householder reflection.
pub fn householder(
    inputs: &Vec<Vec<Complex64>>,
    dim: usize,
    rtol: Complex64,
    strategy: Strategy,
) -> (out: (Vec<Vec<Complex64>>, Vec<Vec<Complex64>>))
    requires
        forall|i: int| 0 <= i < inputs@.len() ==> (#[trigger] inputs@[i])@.len() == dim,
    ensures
        qr_post(
            OrthoModel::Reflection {
                vs: Seq::<Seq<Complex64>>::empty(),
                signs: Seq::<bool>::empty(),
                dim: dim as int,
            },
            cols_of(inputs@),
            rtol,
            strategy,
            out.0,
            out.1,
        ),
{
    let o = Householder::new(dim);
    qr(inputs, o, rtol, strategy)
}

} // verus!
