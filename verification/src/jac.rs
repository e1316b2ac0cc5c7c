//! Jacobians of functions from points to points, by finite differences.

use crate::diff::{
    first_weights, lemma_weighted_sum_reads_below, partial_der, partial_value, sample_point,
    slice_allowed, slice_point, slice_taken, stencil_quotient, DiffResult, STENCIL_POINTS,
};
use crate::matrix::{Matrix, MatrixView};
use crate::scalar::Scalar;
use vstd::prelude::*;

verus! {

/// `f` may return, on a matrix that holds `x`, a matrix whose entry at position `j` is
/// `y`.
pub open spec fn may_return_component<S, F: Fn(Matrix<S>) -> Matrix<S>>(
    f: &F,
    x: MatrixView<S>,
    j: int,
    y: S,
) -> bool {
    exists|m: Matrix<S>, out: Matrix<S>|
        m@ == x && #[trigger] f.ensures((m,), out) && 0 <= j < out@.entries.len()
            && out@.entries[j] == y
}

/// `samples` holds, at every index whose weight is not zero, a value that component `j`
/// of `f` may take at the point that the partial derivative along coordinate `i` samples
/// there.
pub open spec fn component_slice_taken<S: Scalar, F: Fn(Matrix<S>) -> Matrix<S>>(
    f: &F,
    x0: MatrixView<S>,
    eps: S,
    i: int,
    j: int,
    samples: Seq<S>,
) -> bool {
    &&& samples.len() == STENCIL_POINTS
    &&& forall|k: int|
        0 <= k < STENCIL_POINTS && !(#[trigger] first_weights::<S>()[k]).is_zero_spec()
            ==> may_return_component(f, slice_point(x0, eps, i, k as nat), j, samples[k])
}

/// `value` is the first-derivative quotient of some samples that component `j` of `f`
/// may take along coordinate `i` of `x0`.
pub open spec fn is_component_partial_estimate<S: Scalar, F: Fn(Matrix<S>) -> Matrix<S>>(
    f: &F,
    x0: MatrixView<S>,
    eps: S,
    i: int,
    j: int,
    value: S,
) -> bool {
    exists|samples: Seq<S>| #[trigger]
        component_slice_taken(f, x0, eps, i, j, samples) && value == stencil_quotient(
            first_weights::<S>(),
            samples,
            eps,
            1,
        )
}

/// `jac` is square, with one row and one column for each column of `x0`, and its entry in
/// row `i` and column `j` estimates the partial derivative of component `j` of `f` with
/// respect to coordinate `i`.
pub open spec fn is_jacobian<S: Scalar, F: Fn(Matrix<S>) -> Matrix<S>>(
    f: &F,
    x0: MatrixView<S>,
    eps: S,
    jac: MatrixView<S>,
) -> bool {
    &&& jac.nrows == x0.ncols
    &&& jac.ncols == x0.ncols
    &&& jac.well_formed()
    &&& forall|i: int, j: int|
        0 <= i < x0.ncols && 0 <= j < x0.ncols ==> is_component_partial_estimate(
            f,
            x0,
            eps,
            i,
            j,
            #[trigger] jac.entry(i, j),
        )
}

/// On every matrix of the dimensions of `x0`, `f` returns a matrix with at least as many
/// entries as `x0` has columns.
pub open spec fn returns_components<S, F: Fn(Matrix<S>) -> Matrix<S>>(
    f: &F,
    x0: MatrixView<S>,
) -> bool {
    forall|m: Matrix<S>, out: Matrix<S>|
        m@.shape() == x0.shape() && m@.well_formed() && #[trigger] f.ensures((m,), out)
            ==> out@.entries.len() >= x0.ncols
}

/// Estimates the Jacobian of `f_in` at `x0`, a point with `n` coordinates that `f_in`
/// maps to `n` components: the square matrix whose entry in row `i` and column `j` is the
/// partial derivative of component `j` with respect to coordinate `i`.
///
/// The columns are filled one after another, each from its first row down; every entry
/// samples `f_in` anew.
pub fn jac_mat<S: Scalar, F: Fn(Matrix<S>) -> Matrix<S>>(f_in: &F, x0: &Matrix<S>, eps: S) -> (r:
    DiffResult<Matrix<S>>)
    requires
        x0@.ncols <= x0@.entries.len(),
        x0@.ncols * x0@.ncols <= usize::MAX,
        forall|i: int| 0 <= i < x0@.ncols ==> #[trigger] slice_allowed(f_in, x0@, eps, i),
        returns_components(f_in, x0@),
    ensures
        r is Ok,
        is_jacobian(f_in, x0@, eps, r->Ok_0@),
{
    let n: usize = x0.ncols();
    let mut res: Matrix<S> = Matrix::repeat(n, n, S::from_i32(0));
    let mut j: usize = 0;
    while j < n
        invariant
            j <= n,
            n == x0@.ncols,
            n <= x0@.entries.len(),
            x0@.well_formed(),
            res@.nrows == n,
            res@.ncols == n,
            res@.well_formed(),
            forall|t: int| 0 <= t < x0@.ncols ==> #[trigger] slice_allowed(f_in, x0@, eps, t),
            returns_components(f_in, x0@),
            forall|a: int, b: int|
                0 <= a < n && 0 <= b < j ==> is_component_partial_estimate(
                    f_in,
                    x0@,
                    eps,
                    a,
                    b,
                    #[trigger] res@.entry(a, b),
                ),
        decreases n - j,
    {
        let f1 = |x: Matrix<S>| -> (y: S)
            requires
                f_in.requires((x,)),
                x@.shape() == x0@.shape(),
                x@.well_formed(),
            ensures
                may_return_component(f_in, x@, j as int, y),
            {
                let out = f_in(x);
                out.at(j)
            };
        let mut i: usize = 0;
        while i < n
            invariant
                i <= n,
                j < n,
                n == x0@.ncols,
                n <= x0@.entries.len(),
                x0@.well_formed(),
                res@.nrows == n,
                res@.ncols == n,
                res@.well_formed(),
                forall|t: int| 0 <= t < x0@.ncols ==> #[trigger] slice_allowed(f_in, x0@, eps, t),
                forall|x: Matrix<S>|
                    f_in.requires((x,)) && x@.shape() == x0@.shape() && x@.well_formed()
                        ==> #[trigger] f1.requires((x,)),
                forall|x: Matrix<S>, y: S| #[trigger]
                    f1.ensures((x,), y) ==> may_return_component(f_in, x@, j as int, y),
                forall|a: int, b: int|
                    0 <= a < n && 0 <= b < j ==> is_component_partial_estimate(
                        f_in,
                        x0@,
                        eps,
                        a,
                        b,
                        #[trigger] res@.entry(a, b),
                    ),
                forall|a: int|
                    0 <= a < i ==> is_component_partial_estimate(
                        f_in,
                        x0@,
                        eps,
                        a,
                        j as int,
                        #[trigger] res@.entry(a, j as int),
                    ),
            decreases n - i,
        {
            assert(slice_allowed(f_in, x0@, eps, i as int));
            assert(slice_allowed(&f1, x0@, eps, i as int));
            let d = partial_der(&f1, x0, eps, i);
            let ghost before = res@;
            let value: S = d.unwrap();
            proof {
                let samples = choose|samples: Seq<S>| #[trigger]
                    slice_taken(&f1, x0@, eps, i as int, samples) && value == stencil_quotient(
                        first_weights::<S>(),
                        samples,
                        eps,
                        1,
                    );
                assert(component_slice_taken(f_in, x0@, eps, i as int, j as int, samples));
            }
            res.set(i, j, value);
            proof {
                lemma_entries_after_set(before, n as nat, i as int, j as int, value);
            }
            i += 1;
        }
        j += 1;
    }
    Ok(res)
}

/// Replacing the entry in row `i` and column `j` of a square matrix leaves every other
/// entry as it was.
proof fn lemma_entries_after_set<S>(m: MatrixView<S>, n: nat, i: int, j: int, value: S)
    requires
        m.nrows == n,
        m.ncols == n,
        m.well_formed(),
        0 <= i < n,
        0 <= j < n,
    ensures
        m.with_entry(i, j, value).entry(i, j) == value,
        m.with_entry(i, j, value).well_formed(),
        forall|a: int, b: int|
            0 <= a < n && 0 <= b < n && (a != i || b != j) ==> #[trigger] m.with_entry(
                i,
                j,
                value,
            ).entry(a, b) == m.entry(a, b),
{
    crate::matrix::lemma_position_in_range(n, n, i, j);
    assert forall|a: int, b: int| 0 <= a < n && 0 <= b < n && (a != i || b != j) implies #[trigger] m.with_entry(
        i,
        j,
        value,
    ).entry(a, b) == m.entry(a, b) by {
        crate::matrix::lemma_position_in_range(n, n, a, b);
    }
}

/// `f` returns matrices that hold the same entries on all the matrices that hold the
/// same entries.
pub open spec fn single_valued_map<S, F: Fn(Matrix<S>) -> Matrix<S>>(f: &F) -> bool {
    forall|m1: Matrix<S>, m2: Matrix<S>, out1: Matrix<S>, out2: Matrix<S>|
        m1@ == m2@ && #[trigger] f.ensures((m1,), out1) && #[trigger] f.ensures((m2,), out2)
            ==> out1@ == out2@
}

/// Evaluating a Jacobian twice on the same inputs gives the same matrix.
pub proof fn lemma_jacobian_unique<S: Scalar, F: Fn(Matrix<S>) -> Matrix<S>>(
    f: &F,
    x0: MatrixView<S>,
    eps: S,
    jac1: MatrixView<S>,
    jac2: MatrixView<S>,
)
    requires
        single_valued_map(f),
        is_jacobian(f, x0, eps, jac1),
        is_jacobian(f, x0, eps, jac2),
    ensures
        jac1 == jac2,
{
    let n = x0.ncols;
    let w = first_weights::<S>();
    assert forall|i: int, j: int| 0 <= i < n && 0 <= j < n implies jac1.entry(i, j) == jac2.entry(
        i,
        j,
    ) by {
        let r1 = jac1.entry(i, j);
        let r2 = jac2.entry(i, j);
        assert(is_component_partial_estimate(f, x0, eps, i, j, r1));
        assert(is_component_partial_estimate(f, x0, eps, i, j, r2));
        let s1 = choose|samples: Seq<S>| #[trigger]
            component_slice_taken(f, x0, eps, i, j, samples) && r1 == stencil_quotient(
                w,
                samples,
                eps,
                1,
            );
        let s2 = choose|samples: Seq<S>| #[trigger]
            component_slice_taken(f, x0, eps, i, j, samples) && r2 == stencil_quotient(
                w,
                samples,
                eps,
                1,
            );
        assert forall|t: int|
            0 <= t < STENCIL_POINTS && !(#[trigger] w[t]).is_zero_spec() implies s1[t]
            == s2[t] by {
            let p = slice_point(x0, eps, i, t as nat);
            assert(may_return_component(f, p, j, s1[t]));
            assert(may_return_component(f, p, j, s2[t]));
            let (m1, out1) = choose|m: Matrix<S>, out: Matrix<S>|
                m@ == p && #[trigger] f.ensures((m,), out) && 0 <= j < out@.entries.len()
                    && out@.entries[j] == s1[t];
            let (m2, out2) = choose|m: Matrix<S>, out: Matrix<S>|
                m@ == p && #[trigger] f.ensures((m,), out) && 0 <= j < out@.entries.len()
                    && out@.entries[j] == s2[t];
            assert(f.ensures((m1,), out1) && f.ensures((m2,), out2));
        }
        lemma_weighted_sum_reads_below(w, s1, s2, STENCIL_POINTS as nat);
    }
    assert forall|t: int| 0 <= t < jac1.entries.len() implies jac1.entries[t] == jac2.entries[t] by {
        crate::matrix::lemma_row_and_column(n, n, t);
        let i = t % (n as int);
        let j = t / (n as int);
        assert(jac1.entry(i, j) == jac2.entry(i, j));
    }
    assert(jac1.entries =~= jac2.entries);
}

/// Where `f` computes the function `g` of what a matrix holds, the entry of its Jacobian
/// in row `i` and column `j` is the partial-derivative estimate, along coordinate `i`, of
/// component `j` of `g`.
pub proof fn lemma_jacobian_value<S: Scalar, F: Fn(Matrix<S>) -> Matrix<S>>(
    f: &F,
    g: spec_fn(MatrixView<S>) -> MatrixView<S>,
    x0: MatrixView<S>,
    eps: S,
    jac: MatrixView<S>,
)
    requires
        forall|m: Matrix<S>, out: Matrix<S>| #[trigger] f.ensures((m,), out) ==> out@ == g(m@),
        is_jacobian(f, x0, eps, jac),
    ensures
        forall|i: int, j: int|
            0 <= i < x0.ncols && 0 <= j < x0.ncols ==> #[trigger] jac.entry(i, j)
                == partial_value(|x: MatrixView<S>| g(x).entries[j], x0, eps, i),
{
    let w = first_weights::<S>();
    assert forall|i: int, j: int| 0 <= i < x0.ncols && 0 <= j < x0.ncols implies #[trigger] jac.entry(
        i,
        j,
    ) == partial_value(|x: MatrixView<S>| g(x).entries[j], x0, eps, i) by {
        let r = jac.entry(i, j);
        assert(is_component_partial_estimate(f, x0, eps, i, j, r));
        let taken = choose|samples: Seq<S>| #[trigger]
            component_slice_taken(f, x0, eps, i, j, samples) && r == stencil_quotient(
                w,
                samples,
                eps,
                1,
            );
        let component = |x: MatrixView<S>| g(x).entries[j];
        let along = |t: S| component(x0.with_coordinate(i, t));
        let values = Seq::new(
            STENCIL_POINTS as nat,
            |k: int| along(sample_point(x0.entries[i], eps, k as nat)),
        );
        assert forall|t: int|
            0 <= t < STENCIL_POINTS && !(#[trigger] w[t]).is_zero_spec() implies taken[t]
            == values[t] by {
            let p = slice_point(x0, eps, i, t as nat);
            assert(may_return_component(f, p, j, taken[t]));
        }
        lemma_weighted_sum_reads_below(w, taken, values, STENCIL_POINTS as nat);
    }
}

} // verus!
