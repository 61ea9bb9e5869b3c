//! The shape rules on the hyperparameters of a Normal-Inverse-Wishart prior:
//! a mean vector of `d` entries, a `d`-by-`d` scale matrix and at least `d`
//! degrees of freedom.
use vstd::prelude::*;

verus! {

/// Why the hyperparameters of a Normal-Inverse-Wishart prior have the wrong
/// shape.
#[derive(Debug, Clone, Copy, PartialEq, Eq, Structural)]
pub enum NiwShapeError {
    /// Fewer degrees of freedom than dimensions
    DfLowerThanDimensions { df: usize, ndims: usize },
    /// The scale matrix is not square
    ScaleMatrixNotSquare { nrows: usize, ncols: usize },
    /// The mean vector and the scale matrix differ in dimension
    MuScaleDimensionMismatch { n_mu: usize, n_scale: usize },
}

/// Whether a mean vector of `n_mu` entries, an `nrows`-by-`ncols` scale
/// matrix and `df` degrees of freedom fit together.
pub open spec fn shape_fits(n_mu: nat, nrows: nat, ncols: nat, df: nat) -> bool {
    df >= n_mu && nrows == ncols && nrows == n_mu
}

/// Checks the shape of Normal-Inverse-Wishart hyperparameters. Degrees of
/// freedom equal to the dimension are the least accepted; the first broken
/// rule, in the order of the error's variants, is reported.
pub fn check_shape(n_mu: usize, nrows: usize, ncols: usize, df: usize) -> (r: Result<
    (),
    NiwShapeError,
>)
    ensures
        r is Ok <==> shape_fits(n_mu as nat, nrows as nat, ncols as nat, df as nat),
        df < n_mu ==> r == Err::<(), NiwShapeError>(
            NiwShapeError::DfLowerThanDimensions { df, ndims: n_mu },
        ),
        df >= n_mu && nrows != ncols ==> r == Err::<(), NiwShapeError>(
            NiwShapeError::ScaleMatrixNotSquare { nrows, ncols },
        ),
        df >= n_mu && nrows == ncols && nrows != n_mu ==> r == Err::<(), NiwShapeError>(
            NiwShapeError::MuScaleDimensionMismatch { n_mu, n_scale: nrows },
        ),
{
    if df < n_mu {
        Err(NiwShapeError::DfLowerThanDimensions { df, ndims: n_mu })
    } else if nrows != ncols {
        Err(NiwShapeError::ScaleMatrixNotSquare { nrows, ncols })
    } else if nrows != n_mu {
        Err(NiwShapeError::MuScaleDimensionMismatch { n_mu, n_scale: nrows })
    } else {
        Ok(())
    }
}

/// Conditioning on `n` observations only adds degrees of freedom, so the
/// posterior of a prior of the right shape has the right shape too.
pub proof fn lemma_posterior_shape_fits(n_mu: nat, nrows: nat, ncols: nat, df: nat, n: nat)
    requires
        shape_fits(n_mu, nrows, ncols, df),
    ensures
        shape_fits(n_mu, nrows, ncols, df + n),
{
}

} // verus!
