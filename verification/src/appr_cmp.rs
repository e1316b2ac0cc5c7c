//! Comparison of scalars and matrices within a tolerance.

use crate::matrix::{Matrix, MatrixView};
use crate::scalar::Scalar;
use vstd::prelude::*;

verus! {

/// Why two values were not found equal within the tolerance.
#[derive(Debug)]
pub enum ApproxEqError<S> {
    /// The discrepancy, carried here, is above the tolerance.  Where the discrepancy is
    /// unordered against the tolerance, zero is carried in its place.
    ToleranceExceeded(S),
    /// The two matrices do not have the same dimensions.
    ShapeMismatch,
}

impl<S> ApproxEqError<S> {
    /// The message that describes the failure.
    pub fn to_string(&self) -> (message: String)
        ensures
            message@ == "Non-equal parts"@,
    {
        "Non-equal parts".to_owned()
    }
}

/// The discrepancy between two scalars: the magnitude of their difference.
pub open spec fn discrepancy<S: Scalar>(v1: S, v2: S) -> S {
    v1.sub_spec(v2).abs_spec()
}

/// The outcome of comparing two scalars: their discrepancy, as a success where it is at
/// most `tol` and as a failure where it is above.
pub open spec fn approx_eq_spec<S: Scalar>(v1: S, v2: S, tol: S) -> Result<S, ApproxEqError<S>> {
    let d = discrepancy(v1, v2);
    if d.le_spec(tol) {
        Ok(d)
    } else if tol.lt_spec(d) {
        Err(ApproxEqError::ToleranceExceeded(d))
    } else {
        Err(ApproxEqError::ToleranceExceeded(S::from_i32_spec(0)))
    }
}

/// Compares two scalars: succeeds with their discrepancy where it is at most `tol`
/// (a discrepancy equal to `tol` passes), and fails with it otherwise.
pub fn approx_eq<S: Scalar>(v1: S, v2: S, tol: S) -> (r: Result<S, ApproxEqError<S>>)
    ensures
        r == approx_eq_spec(v1, v2, tol),
        discrepancy(v1, v2).le_spec(tol) ==> r == Ok::<S, ApproxEqError<S>>(discrepancy(v1, v2)),
        tol.lt_spec(discrepancy(v1, v2)) ==> r == Err::<S, ApproxEqError<S>>(
            ApproxEqError::ToleranceExceeded(discrepancy(v1, v2)),
        ),
{
    let d = v1.sub(v2).abs();
    proof {
        S::lemma_le_excludes_gt(d, tol);
    }
    if d.le(tol) {
        Ok(d)
    } else if tol.lt(d) {
        Err(ApproxEqError::ToleranceExceeded(d))
    } else {
        Err(ApproxEqError::ToleranceExceeded(S::from_i32(0)))
    }
}

/// Comparing two scalars gives the same outcome whichever of them comes first.
pub proof fn lemma_approx_eq_symmetric<S: Scalar>(v1: S, v2: S, tol: S)
    ensures
        approx_eq_spec(v1, v2, tol) == approx_eq_spec(v2, v1, tol),
{
    S::lemma_abs_sub_symmetric(v1, v2);
    let d1 = discrepancy(v1, v2);
    let d2 = discrepancy(v2, v1);
    if d1 != d2 {
        assert(!d1.le_spec(tol) && !tol.lt_spec(d1));
        assert(!d2.le_spec(tol) && !tol.lt_spec(d2));
    }
}

/// The entry of `m` that the row-by-row walk visits at step `k`.
pub open spec fn visited<S>(m: MatrixView<S>, k: int) -> S {
    m.entry(k / (m.ncols as int), k % (m.ncols as int))
}

/// The outcome of comparing the entries that the walk visits at step `k`.
pub open spec fn compared<S: Scalar>(v1: MatrixView<S>, v2: MatrixView<S>, tol: S, k: int) -> Result<
    S,
    ApproxEqError<S>,
> {
    approx_eq_spec(visited(v1, k), visited(v2, k), tol)
}

/// The discrepancies of the first `k` entries visited, added up in the order of the walk,
/// starting from zero.
pub open spec fn total_discrepancy<S: Scalar>(v1: MatrixView<S>, v2: MatrixView<S>, k: nat) -> S
    decreases k,
{
    if k == 0 {
        S::from_i32_spec(0)
    } else {
        total_discrepancy(v1, v2, (k - 1) as nat).add_spec(
            discrepancy(visited(v1, k - 1), visited(v2, k - 1)),
        )
    }
}

/// The mean discrepancy of two matrices of the same dimensions: the total over all
/// entries, divided by their number.
pub open spec fn mean_discrepancy<S: Scalar>(v1: MatrixView<S>, v2: MatrixView<S>) -> S {
    total_discrepancy(v1, v2, v1.nrows * v1.ncols).div_spec(
        S::from_usize_spec((v1.nrows * v1.ncols) as usize),
    )
}

/// The entries visited before step `k` all pass, and the one visited at step `k` fails.
pub open spec fn is_first_failure<S: Scalar>(
    v1: MatrixView<S>,
    v2: MatrixView<S>,
    tol: S,
    k: int,
) -> bool {
    &&& 0 <= k < v1.nrows * v1.ncols
    &&& compared(v1, v2, tol, k) is Err
    &&& forall|t: int| 0 <= t < k ==> (#[trigger] compared(v1, v2, tol, t)) is Ok
}

/// Every entry of `v1` is within `tol` of the entry of `v2` in the same place.
pub open spec fn all_within<S: Scalar>(v1: MatrixView<S>, v2: MatrixView<S>, tol: S) -> bool {
    forall|k: int| 0 <= k < v1.nrows * v1.ncols ==> (#[trigger] compared(v1, v2, tol, k)) is Ok
}

/// The step at which the walk meets the first entry that fails.
pub open spec fn first_failure<S: Scalar>(v1: MatrixView<S>, v2: MatrixView<S>, tol: S) -> int {
    choose|k: int| is_first_failure(v1, v2, tol, k)
}

/// The outcome of comparing two matrices.
pub open spec fn approx_eq_mat_spec<S: Scalar>(v1: MatrixView<S>, v2: MatrixView<S>, tol: S) -> Result<
    S,
    ApproxEqError<S>,
> {
    if v1.shape() != v2.shape() {
        Err(ApproxEqError::ShapeMismatch)
    } else if all_within(v1, v2, tol) {
        Ok(mean_discrepancy(v1, v2))
    } else {
        compared(v1, v2, tol, first_failure(v1, v2, tol))
    }
}

/// Compares two matrices entry by entry, row after row.
///
/// Matrices of different dimensions fail with `ShapeMismatch`, whatever the tolerance.
/// Otherwise the first entry whose comparison fails decides, and its failure is returned;
/// where every entry passes, the result is the mean discrepancy.
pub fn approx_eq_mat<S: Scalar>(v1: &Matrix<S>, v2: &Matrix<S>, tol: S) -> (r: Result<
    S,
    ApproxEqError<S>,
>)
    ensures
        r == approx_eq_mat_spec(v1@, v2@, tol),
        v1@.shape() != v2@.shape() ==> r == Err::<S, ApproxEqError<S>>(
            ApproxEqError::ShapeMismatch,
        ),
        r is Ok <==> v1@.shape() == v2@.shape() && all_within(v1@, v2@, tol),
{
    let (nrows, ncols) = v1.shape();
    let (nrows2, ncols2) = v2.shape();
    if nrows != nrows2 || ncols != ncols2 {
        return Err(ApproxEqError::ShapeMismatch);
    }
    let mut total_error: S = S::from_i32(0);
    let mut i: usize = 0;
    while i < nrows
        invariant
            i <= nrows,
            v1@.nrows == nrows,
            v1@.ncols == ncols,
            v2@.nrows == nrows,
            v2@.ncols == ncols,
            v1@.well_formed(),
            total_error == total_discrepancy(v1@, v2@, (i * ncols) as nat),
            forall|t: int| 0 <= t < i * ncols ==> (#[trigger] compared(v1@, v2@, tol, t)) is Ok,
        decreases nrows - i,
    {
        let mut j: usize = 0;
        while j < ncols
            invariant
                i < nrows,
                j <= ncols,
                v1@.nrows == nrows,
                v1@.ncols == ncols,
                v2@.nrows == nrows,
                v2@.ncols == ncols,
                v1@.well_formed(),
                total_error == total_discrepancy(v1@, v2@, (i * ncols + j) as nat),
                forall|t: int|
                    0 <= t < i * ncols + j ==> (#[trigger] compared(v1@, v2@, tol, t)) is Ok,
            decreases ncols - j,
        {
            let ghost k = i * ncols + j;
            proof {
                lemma_step_of_walk(nrows as nat, ncols as nat, i as int, j as int);
            }
            match approx_eq(v1.get(i, j), v2.get(i, j), tol) {
                Ok(d) => {
                    total_error = total_error.add(d);
                },
                Err(e) => {
                    proof {
                        assert(is_first_failure(v1@, v2@, tol, k));
                        let first = first_failure(v1@, v2@, tol);
                        assert(is_first_failure(v1@, v2@, tol, first));
                        if first < k {
                            assert(compared(v1@, v2@, tol, first) is Ok);
                        } else if first > k {
                            assert(compared(v1@, v2@, tol, k) is Ok);
                        }
                    }
                    return Err(e);
                },
            }
            j += 1;
        }
        proof {
            assert((i + 1) * ncols == i * ncols + ncols) by (nonlinear_arith);
        }
        i += 1;
    }
    let count: usize = v1.len();
    Ok(total_error.div(S::from_usize(count)))
}

/// Step `i * ncols + j` of the walk visits row `i` and column `j`.
proof fn lemma_step_of_walk(nrows: nat, ncols: nat, i: int, j: int)
    requires
        0 <= i < nrows,
        0 <= j < ncols,
    ensures
        0 <= i * ncols + j < nrows * ncols,
        (i * ncols + j) / (ncols as int) == i,
        (i * ncols + j) % (ncols as int) == j,
{
    crate::matrix::lemma_position_in_range(ncols, nrows, j, i);
    assert(ncols * nrows == nrows * ncols) by (nonlinear_arith);
}

} // verus!
