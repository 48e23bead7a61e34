//! Flag types describing how a LAPACK-style numerical backend is asked
//! to read a matrix.  Callers that hand work to such a backend translate
//! these to the character codes it expects.

use vstd::prelude::*;

verus! {

/// Upper/Lower specification for several usages (the backend codes `U`
/// and `L`).
#[derive(Debug, Clone, Copy)]
pub enum UPLO {
    Upper,
    Lower,
}

impl UPLO {
    /// The opposite triangle: transposition maps one onto the other.
    pub fn t(self) -> (r: Self)
        ensures
            r == (match self {
                UPLO::Upper => UPLO::Lower,
                UPLO::Lower => UPLO::Upper,
            }),
    {
        match self {
            UPLO::Upper => UPLO::Lower,
            UPLO::Lower => UPLO::Upper,
        }
    }
}

/// Transposition specification (the backend codes `N`, `T` and `C`).
#[derive(Debug, Clone, Copy)]
pub enum Transpose {
    No,
    Transpose,
    Hermite,
}

/// Operator-norm specification (the backend codes `O`, `I` and `F`).
#[derive(Debug, Clone, Copy)]
pub enum NormType {
    One,
    Infinity,
    Frobenius,
}

impl NormType {
    /// The norm of the transposed matrix: the one-norm and the
    /// infinity-norm swap, the Frobenius norm is its own transpose.
    pub fn transpose(self) -> (r: Self)
        ensures
            r == (match self {
                NormType::One => NormType::Infinity,
                NormType::Infinity => NormType::One,
                NormType::Frobenius => NormType::Frobenius,
            }),
    {
        match self {
            NormType::One => NormType::Infinity,
            NormType::Infinity => NormType::One,
            NormType::Frobenius => NormType::Frobenius,
        }
    }
}

/// Types of generalized eigenvalue problem (the backend codes 1 to 3).
#[derive(Debug, Clone, Copy)]
pub enum ITYPE {
    /// Solve `A x = lambda B x`.
    AxlBx,
    /// Solve `A B x = lambda x`.
    ABxlx,
    /// Solve `B A x = lambda x`.
    BAxlx,
}

} // verus!
