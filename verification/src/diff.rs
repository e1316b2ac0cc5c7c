//! Derivatives by central finite differences on five points.

use crate::matrix::{Matrix, MatrixView};
use crate::scalar::Scalar;
use vstd::prelude::*;

verus! {

/// Why a derivative could not be formed.
#[derive(Clone, Copy, Debug, PartialEq, Eq)]
pub enum DiffError {
    /// The point of evaluation is not a single row.
    ShapeMismatch,
}

/// What a differentiation routine returns.
pub type DiffResult<T> = Result<T, DiffError>;

/// The number of points in a stencil.
pub const STENCIL_POINTS: usize = 5;

/// How many steps before the centre the first point of a stencil lies.
pub const OFFSET: i32 = 2;

/// The point at which the weight of index `k` samples the function: the first one lies
/// `OFFSET` steps of `eps` below `x0`, and each further one a step of `eps` above the one
/// before.
pub open spec fn sample_point<S: Scalar>(x0: S, eps: S, k: nat) -> S
    decreases k,
{
    if k == 0 {
        x0.sub_spec(eps.mul_spec(S::from_i32_spec(OFFSET)))
    } else {
        sample_point(x0, eps, (k - 1) as nat).add_spec(eps)
    }
}

/// The samples of index below `k`, each multiplied by its weight and added up from zero
/// in the order of their indices; a sample whose weight is zero is left out.
pub open spec fn weighted_sum<S: Scalar>(coeffs: Seq<S>, samples: Seq<S>, k: nat) -> S
    decreases k,
{
    if k == 0 {
        S::from_i32_spec(0)
    } else {
        let before = weighted_sum(coeffs, samples, (k - 1) as nat);
        if coeffs[k - 1].is_zero_spec() {
            before
        } else {
            before.add_spec(coeffs[k - 1].mul_spec(samples[k - 1]))
        }
    }
}

/// `base` multiplied by itself `n` times, starting from one.
pub open spec fn power<S: Scalar>(base: S, n: nat) -> S
    decreases n,
{
    if n == 0 {
        S::from_i32_spec(1)
    } else {
        power(base, (n - 1) as nat).mul_spec(base)
    }
}

/// `eps` to the power `order`; for a negative `order`, one divided by `eps` to the power
/// `-order`.
pub open spec fn step_power<S: Scalar>(eps: S, order: i32) -> S {
    if order >= 0 {
        power(eps, order as nat)
    } else {
        S::from_i32_spec(1).div_spec(power(eps, (-order) as nat))
    }
}

/// The finite-difference quotient formed from five samples: their weighted sum, divided
/// by the step to the power of the derivative's order.
pub open spec fn stencil_quotient<S: Scalar>(
    coeffs: Seq<S>,
    samples: Seq<S>,
    eps: S,
    order: i32,
) -> S {
    weighted_sum(coeffs, samples, STENCIL_POINTS as nat).div_spec(step_power(eps, order))
}

/// `f` may be called at every point of the stencil whose weight is not zero.
pub open spec fn samples_allowed<S: Scalar, F: Fn(S) -> S>(
    f: &F,
    x0: S,
    eps: S,
    coeffs: Seq<S>,
) -> bool {
    forall|k: int|
        0 <= k < STENCIL_POINTS && !(#[trigger] coeffs[k]).is_zero_spec() ==> f.requires(
            (sample_point(x0, eps, k as nat),),
        )
}

/// `samples` holds, at every index whose weight is not zero, a value that `f` may return
/// at that index's point of the stencil.
pub open spec fn samples_taken<S: Scalar, F: Fn(S) -> S>(
    f: &F,
    x0: S,
    eps: S,
    coeffs: Seq<S>,
    samples: Seq<S>,
) -> bool {
    &&& samples.len() == STENCIL_POINTS
    &&& forall|k: int|
        0 <= k < STENCIL_POINTS && !(#[trigger] coeffs[k]).is_zero_spec() ==> f.ensures(
            (sample_point(x0, eps, k as nat),),
            samples[k],
        )
}

/// `value` is the finite-difference quotient of some samples that `f` may return at the
/// points of the stencil.
pub open spec fn is_stencil_estimate<S: Scalar, F: Fn(S) -> S>(
    f: &F,
    x0: S,
    eps: S,
    coeffs: Seq<S>,
    order: i32,
    value: S,
) -> bool {
    exists|samples: Seq<S>| #[trigger]
        samples_taken(f, x0, eps, coeffs, samples) && value == stencil_quotient(
            coeffs,
            samples,
            eps,
            order,
        )
}

/// `base` to the power `n`, by repeated multiplication.
fn powi<S: Scalar>(base: S, n: u32) -> (r: S)
    ensures
        r == power(base, n as nat),
{
    let mut r: S = S::from_i32(1);
    let mut k: u32 = 0;
    while k < n
        invariant
            k <= n,
            r == power(base, k as nat),
        decreases n - k,
    {
        r = r.mul(base);
        k += 1;
    }
    r
}

/// Estimates the derivative of order `order` of `f_in` at `x0` from samples taken on
/// five points spaced `eps` apart and centred on `x0`.
///
/// `f_in` is called once at each point whose weight is not zero, in the order of the
/// points, and at no other point.
pub fn df_abstr<S: Scalar, F: Fn(S) -> S>(
    f_in: &F,
    x0: S,
    eps: S,
    coeffs: [S; 5],
    order: i32,
) -> (r: DiffResult<S>)
    requires
        samples_allowed(f_in, x0, eps, coeffs@),
    ensures
        r is Ok,
        is_stencil_estimate(f_in, x0, eps, coeffs@, order, r->Ok_0),
{
    let mut res: S = S::from_i32(0);
    let mut x1: S = x0.sub(eps.mul(S::from_i32(OFFSET)));
    let ghost mut samples: Seq<S> = Seq::new(STENCIL_POINTS as nat, |k: int| x0);
    let mut k: usize = 0;
    while k < STENCIL_POINTS
        invariant
            k <= STENCIL_POINTS,
            samples_allowed(f_in, x0, eps, coeffs@),
            samples.len() == STENCIL_POINTS,
            x1 == sample_point(x0, eps, k as nat),
            res == weighted_sum(coeffs@, samples, k as nat),
            forall|t: int|
                0 <= t < k && !(#[trigger] coeffs@[t]).is_zero_spec() ==> f_in.ensures(
                    (sample_point(x0, eps, t as nat),),
                    samples[t],
                ),
        decreases STENCIL_POINTS - k,
    {
        let weight: S = coeffs[k];
        let ghost before = samples;
        if !weight.is_zero() {
            let y: S = f_in(x1);
            proof {
                samples = samples.update(k as int, y);
            }
            res = res.add(weight.mul(y));
        }
        proof {
            lemma_weighted_sum_reads_below(coeffs@, before, samples, k as nat);
        }
        x1 = x1.add(eps);
        k += 1;
    }
    let scale: S = if order >= 0 {
        powi(eps, order as u32)
    } else {
        let wide: i64 = order as i64;
        S::from_i32(1).div(powi(eps, (-wide) as u32))
    };
    proof {
        assert(samples_taken(f_in, x0, eps, coeffs@, samples));
    }
    Ok(res.div(scale))
}

/// The weights of the central difference on five points for the first derivative:
/// 1/12, -2/3, 0, 2/3, -1/12.
pub open spec fn first_weights<S: Scalar>() -> Seq<S> {
    seq![
        S::from_i32_spec(1).div_spec(S::from_i32_spec(12)),
        S::from_i32_spec(-2i32).div_spec(S::from_i32_spec(3)),
        S::from_i32_spec(0),
        S::from_i32_spec(2).div_spec(S::from_i32_spec(3)),
        S::from_i32_spec(-1i32).div_spec(S::from_i32_spec(12)),
    ]
}

/// The weights of the central difference on five points for the second derivative:
/// -1/12, 4/3, -5/2, 4/3, -1/12.
pub open spec fn second_weights<S: Scalar>() -> Seq<S> {
    seq![
        S::from_i32_spec(-1i32).div_spec(S::from_i32_spec(12)),
        S::from_i32_spec(4).div_spec(S::from_i32_spec(3)),
        S::from_i32_spec(-5i32).div_spec(S::from_i32_spec(2)),
        S::from_i32_spec(4).div_spec(S::from_i32_spec(3)),
        S::from_i32_spec(-1i32).div_spec(S::from_i32_spec(12)),
    ]
}

/// The weights of the first derivative.
pub fn cfd<S: Scalar>() -> (w: [S; 5])
    ensures
        w@ == first_weights::<S>(),
{
    let w: [S; 5] = [
        S::from_i32(1).div(S::from_i32(12)),
        S::from_i32(-2).div(S::from_i32(3)),
        S::from_i32(0),
        S::from_i32(2).div(S::from_i32(3)),
        S::from_i32(-1).div(S::from_i32(12)),
    ];
    assert(w@ =~= first_weights::<S>());
    w
}

/// The weights of the second derivative.
pub fn cfd2<S: Scalar>() -> (w: [S; 5])
    ensures
        w@ == second_weights::<S>(),
{
    let w: [S; 5] = [
        S::from_i32(-1).div(S::from_i32(12)),
        S::from_i32(4).div(S::from_i32(3)),
        S::from_i32(-5).div(S::from_i32(2)),
        S::from_i32(4).div(S::from_i32(3)),
        S::from_i32(-1).div(S::from_i32(12)),
    ];
    assert(w@ =~= second_weights::<S>());
    w
}

/// Estimates the first derivative of `f_in` at `x0` with step `eps`.
pub fn df1<S: Scalar, F: Fn(S) -> S>(f_in: &F, x0: S, eps: S) -> (r: DiffResult<S>)
    requires
        samples_allowed(f_in, x0, eps, first_weights::<S>()),
    ensures
        r is Ok,
        is_stencil_estimate(f_in, x0, eps, first_weights::<S>(), 1, r->Ok_0),
{
    df_abstr(f_in, x0, eps, cfd(), 1)
}

/// Estimates the second derivative of `f_in` at `x0` with step `eps`.
pub fn df2<S: Scalar, F: Fn(S) -> S>(f_in: &F, x0: S, eps: S) -> (r: DiffResult<S>)
    requires
        samples_allowed(f_in, x0, eps, second_weights::<S>()),
    ensures
        r is Ok,
        is_stencil_estimate(f_in, x0, eps, second_weights::<S>(), 2, r->Ok_0),
{
    df_abstr(f_in, x0, eps, cfd2(), 2)
}

/// `f` may be called on every matrix that holds `x`.
pub open spec fn accepts<S, T, F: Fn(Matrix<S>) -> T>(f: &F, x: MatrixView<S>) -> bool {
    forall|m: Matrix<S>| m@ == x ==> #[trigger] f.requires((m,))
}

/// `f` may return `y` on a matrix that holds `x`.
pub open spec fn may_return<S, T, F: Fn(Matrix<S>) -> T>(f: &F, x: MatrixView<S>, y: T) -> bool {
    exists|m: Matrix<S>| m@ == x && #[trigger] f.ensures((m,), y)
}

/// The point `x0` with its coordinate `ind` moved to the point of index `k` of the
/// stencil centred on that coordinate.
pub open spec fn slice_point<S: Scalar>(x0: MatrixView<S>, eps: S, ind: int, k: nat) -> MatrixView<
    S,
> {
    x0.with_coordinate(ind, sample_point(x0.entries[ind], eps, k))
}

/// `f` may be called at every point that the partial derivative along coordinate `ind`
/// samples.
pub open spec fn slice_allowed<S: Scalar, T, F: Fn(Matrix<S>) -> T>(
    f: &F,
    x0: MatrixView<S>,
    eps: S,
    ind: int,
) -> bool {
    forall|k: int|
        0 <= k < STENCIL_POINTS && !(#[trigger] first_weights::<S>()[k]).is_zero_spec()
            ==> accepts(f, slice_point(x0, eps, ind, k as nat))
}

/// `samples` holds, at every index whose weight is not zero, a value that `f` may return
/// at the point that the partial derivative along coordinate `ind` samples there.
pub open spec fn slice_taken<S: Scalar, F: Fn(Matrix<S>) -> S>(
    f: &F,
    x0: MatrixView<S>,
    eps: S,
    ind: int,
    samples: Seq<S>,
) -> bool {
    &&& samples.len() == STENCIL_POINTS
    &&& forall|k: int|
        0 <= k < STENCIL_POINTS && !(#[trigger] first_weights::<S>()[k]).is_zero_spec()
            ==> may_return(f, slice_point(x0, eps, ind, k as nat), samples[k])
}

/// `value` is the first-derivative quotient of some samples that `f` may return along
/// coordinate `ind` of `x0`.
pub open spec fn is_partial_estimate<S: Scalar, F: Fn(Matrix<S>) -> S>(
    f: &F,
    x0: MatrixView<S>,
    eps: S,
    ind: int,
    value: S,
) -> bool {
    exists|samples: Seq<S>| #[trigger]
        slice_taken(f, x0, eps, ind, samples) && value == stencil_quotient(
            first_weights::<S>(),
            samples,
            eps,
            1,
        )
}

/// Estimates the partial derivative of `f_in` at `x0` with respect to the coordinate at
/// position `ind`, with step `eps`: the first derivative of `f_in` along that coordinate,
/// all other coordinates held fixed.
///
/// `ind` has to be a position of `x0`; a position beyond its entries is not wrapped
/// around, it is a breach of the precondition.
pub fn partial_der<S: Scalar, F: Fn(Matrix<S>) -> S>(
    f_in: &F,
    x0: &Matrix<S>,
    eps: S,
    ind: usize,
) -> (r: DiffResult<S>)
    requires
        ind < x0@.entries.len(),
        slice_allowed(f_in, x0@, eps, ind as int),
    ensures
        r is Ok,
        is_partial_estimate(f_in, x0@, eps, ind as int, r->Ok_0),
{
    let fi = |x: S| -> (y: S)
        requires
            accepts(f_in, x0@.with_coordinate(ind as int, x)),
        ensures
            may_return(f_in, x0@.with_coordinate(ind as int, x), y),
        {
            let mut x1 = x0.clone();
            x1.set_at(ind, x);
            f_in(x1)
        };
    let center: S = x0.at(ind);
    let r = df1(&fi, center, eps);
    proof {
        let samples = choose|samples: Seq<S>| #[trigger]
            samples_taken(&fi, center, eps, first_weights::<S>(), samples) && r->Ok_0
                == stencil_quotient(first_weights::<S>(), samples, eps, 1);
        assert(slice_taken(f_in, x0@, eps, ind as int, samples));
    }
    r
}

/// `g` is a row of partial-derivative estimates of `f`, one for each coordinate of `x0`.
pub open spec fn is_gradient<S: Scalar, F: Fn(Matrix<S>) -> S>(
    f: &F,
    x0: MatrixView<S>,
    eps: S,
    g: MatrixView<S>,
) -> bool {
    &&& g.nrows == 1
    &&& g.ncols == x0.ncols
    &&& g.entries.len() == x0.ncols
    &&& forall|i: int|
        0 <= i < x0.ncols ==> is_partial_estimate(f, x0, eps, i, #[trigger] g.entries[i])
}

/// Estimates the gradient of `f_in` at the single-row point `x0`, coordinate by
/// coordinate in the order of the coordinates.  A point with another number of rows is
/// refused with `ShapeMismatch`.
pub fn grad<S: Scalar, F: Fn(Matrix<S>) -> S>(f_in: &F, x0: &Matrix<S>, eps: S) -> (r: DiffResult<
    Matrix<S>,
>)
    requires
        x0@.nrows == 1 ==> forall|i: int|
            0 <= i < x0@.ncols ==> #[trigger] slice_allowed(f_in, x0@, eps, i),
    ensures
        x0@.nrows != 1 ==> r is Err && r->Err_0 == DiffError::ShapeMismatch,
        x0@.nrows == 1 ==> r is Ok && is_gradient(f_in, x0@, eps, r->Ok_0@),
{
    if x0.nrows() != 1 {
        return Err(DiffError::ShapeMismatch);
    }
    let n: usize = x0.ncols();
    assert(x0@.entries.len() == n) by (nonlinear_arith)
        requires
            x0@.entries.len() == 1 * n,
    ;
    let mut res: Matrix<S> = x0.clone();
    let mut i: usize = 0;
    while i < n
        invariant
            i <= n,
            n == x0@.ncols,
            x0@.nrows == 1,
            x0@.entries.len() == n,
            res@.nrows == 1,
            res@.ncols == n,
            res@.entries.len() == n,
            forall|t: int| 0 <= t < x0@.ncols ==> #[trigger] slice_allowed(f_in, x0@, eps, t),
            forall|t: int|
                0 <= t < i ==> is_partial_estimate(f_in, x0@, eps, t, #[trigger] res@.entries[t]),
        decreases n - i,
    {
        assert(slice_allowed(f_in, x0@, eps, i as int));
        let d = partial_der(f_in, x0, eps, i);
        res.set_at(i, d.unwrap());
        i += 1;
    }
    Ok(res)
}

/// The weighted sum of the samples of index below `k` depends only on the samples of
/// index below `k` whose weight is not zero.
pub proof fn lemma_weighted_sum_reads_below<S: Scalar>(
    coeffs: Seq<S>,
    a: Seq<S>,
    b: Seq<S>,
    k: nat,
)
    requires
        forall|t: int| 0 <= t < k && !(#[trigger] coeffs[t]).is_zero_spec() ==> a[t] == b[t],
    ensures
        weighted_sum(coeffs, a, k) == weighted_sum(coeffs, b, k),
    decreases k,
{
    if k > 0 {
        lemma_weighted_sum_reads_below(coeffs, a, b, (k - 1) as nat);
    }
}

/// `f` returns one value at each point.
pub open spec fn single_valued<S, F: Fn(S) -> S>(f: &F) -> bool {
    forall|x: S, y1: S, y2: S| #[trigger]
        f.ensures((x,), y1) && #[trigger] f.ensures((x,), y2) ==> y1 == y2
}

/// `f` returns one value on all the matrices that hold the same entries.
pub open spec fn single_valued_on_points<S, F: Fn(Matrix<S>) -> S>(f: &F) -> bool {
    forall|m1: Matrix<S>, m2: Matrix<S>, y1: S, y2: S|
        m1@ == m2@ && #[trigger] f.ensures((m1,), y1) && #[trigger] f.ensures((m2,), y2) ==> y1
            == y2
}

/// Evaluating a derivative twice on the same inputs gives the same value: a function that
/// returns one value at each point has one stencil estimate.
pub proof fn lemma_stencil_estimate_unique<S: Scalar, F: Fn(S) -> S>(
    f: &F,
    x0: S,
    eps: S,
    coeffs: Seq<S>,
    order: i32,
    r1: S,
    r2: S,
)
    requires
        single_valued(f),
        is_stencil_estimate(f, x0, eps, coeffs, order, r1),
        is_stencil_estimate(f, x0, eps, coeffs, order, r2),
    ensures
        r1 == r2,
{
    let s1 = choose|samples: Seq<S>| #[trigger]
        samples_taken(f, x0, eps, coeffs, samples) && r1 == stencil_quotient(
            coeffs,
            samples,
            eps,
            order,
        );
    let s2 = choose|samples: Seq<S>| #[trigger]
        samples_taken(f, x0, eps, coeffs, samples) && r2 == stencil_quotient(
            coeffs,
            samples,
            eps,
            order,
        );
    lemma_weighted_sum_reads_below(coeffs, s1, s2, STENCIL_POINTS as nat);
}

/// Evaluating a partial derivative twice on the same inputs gives the same value.
pub proof fn lemma_partial_estimate_unique<S: Scalar, F: Fn(Matrix<S>) -> S>(
    f: &F,
    x0: MatrixView<S>,
    eps: S,
    ind: int,
    r1: S,
    r2: S,
)
    requires
        single_valued_on_points(f),
        is_partial_estimate(f, x0, eps, ind, r1),
        is_partial_estimate(f, x0, eps, ind, r2),
    ensures
        r1 == r2,
{
    let w = first_weights::<S>();
    let s1 = choose|samples: Seq<S>| #[trigger]
        slice_taken(f, x0, eps, ind, samples) && r1 == stencil_quotient(w, samples, eps, 1);
    let s2 = choose|samples: Seq<S>| #[trigger]
        slice_taken(f, x0, eps, ind, samples) && r2 == stencil_quotient(w, samples, eps, 1);
    assert forall|t: int| 0 <= t < STENCIL_POINTS && !(#[trigger] w[t]).is_zero_spec() implies s1[t]
        == s2[t] by {
        let p = slice_point(x0, eps, ind, t as nat);
        assert(may_return(f, p, s1[t]));
        assert(may_return(f, p, s2[t]));
        let m1 = choose|m: Matrix<S>| m@ == p && #[trigger] f.ensures((m,), s1[t]);
        let m2 = choose|m: Matrix<S>| m@ == p && #[trigger] f.ensures((m,), s2[t]);
        assert(f.ensures((m1,), s1[t]) && f.ensures((m2,), s2[t]));
    }
    lemma_weighted_sum_reads_below(w, s1, s2, STENCIL_POINTS as nat);
}

/// Evaluating a gradient twice on the same inputs gives the same row.
pub proof fn lemma_gradient_unique<S: Scalar, F: Fn(Matrix<S>) -> S>(
    f: &F,
    x0: MatrixView<S>,
    eps: S,
    g1: MatrixView<S>,
    g2: MatrixView<S>,
)
    requires
        single_valued_on_points(f),
        is_gradient(f, x0, eps, g1),
        is_gradient(f, x0, eps, g2),
    ensures
        g1 == g2,
{
    assert forall|i: int| 0 <= i < x0.ncols implies g1.entries[i] == g2.entries[i] by {
        lemma_partial_estimate_unique(f, x0, eps, i, g1.entries[i], g2.entries[i]);
    }
    assert(g1.entries =~= g2.entries);
}

/// The estimate of the derivative of order `order` of the function `g` at `x0`: the
/// values of `g` at the five points of the stencil, weighted, added up and divided by the
/// step to the power `order`.
pub open spec fn stencil_value<S: Scalar>(
    g: spec_fn(S) -> S,
    x0: S,
    eps: S,
    coeffs: Seq<S>,
    order: i32,
) -> S {
    stencil_quotient(
        coeffs,
        Seq::new(STENCIL_POINTS as nat, |k: int| g(sample_point(x0, eps, k as nat))),
        eps,
        order,
    )
}

/// The estimate of the partial derivative of the function `g` at `x0` along coordinate
/// `ind`: the estimate of the first derivative of `g` as a function of that coordinate
/// alone.
pub open spec fn partial_value<S: Scalar>(
    g: spec_fn(MatrixView<S>) -> S,
    x0: MatrixView<S>,
    eps: S,
    ind: int,
) -> S {
    stencil_value(
        |t: S| g(x0.with_coordinate(ind, t)),
        x0.entries[ind],
        eps,
        first_weights::<S>(),
        1,
    )
}

/// Where `f` computes the function `g`, its stencil estimate is that of `g`.
pub proof fn lemma_stencil_estimate_value<S: Scalar, F: Fn(S) -> S>(
    f: &F,
    g: spec_fn(S) -> S,
    x0: S,
    eps: S,
    coeffs: Seq<S>,
    order: i32,
    r: S,
)
    requires
        forall|x: S, y: S| #[trigger] f.ensures((x,), y) ==> y == g(x),
        is_stencil_estimate(f, x0, eps, coeffs, order, r),
    ensures
        r == stencil_value(g, x0, eps, coeffs, order),
{
    let taken = choose|samples: Seq<S>| #[trigger]
        samples_taken(f, x0, eps, coeffs, samples) && r == stencil_quotient(
            coeffs,
            samples,
            eps,
            order,
        );
    let values = Seq::new(STENCIL_POINTS as nat, |k: int| g(sample_point(x0, eps, k as nat)));
    lemma_weighted_sum_reads_below(coeffs, taken, values, STENCIL_POINTS as nat);
}

/// Where `f` computes the function `g` of what a matrix holds, its partial-derivative
/// estimate is that of `g`.
pub proof fn lemma_partial_estimate_value<S: Scalar, F: Fn(Matrix<S>) -> S>(
    f: &F,
    g: spec_fn(MatrixView<S>) -> S,
    x0: MatrixView<S>,
    eps: S,
    ind: int,
    r: S,
)
    requires
        forall|m: Matrix<S>, y: S| #[trigger] f.ensures((m,), y) ==> y == g(m@),
        is_partial_estimate(f, x0, eps, ind, r),
    ensures
        r == partial_value(g, x0, eps, ind),
{
    let w = first_weights::<S>();
    let taken = choose|samples: Seq<S>| #[trigger]
        slice_taken(f, x0, eps, ind, samples) && r == stencil_quotient(w, samples, eps, 1);
    let along = |t: S| g(x0.with_coordinate(ind, t));
    let values = Seq::new(
        STENCIL_POINTS as nat,
        |k: int| along(sample_point(x0.entries[ind], eps, k as nat)),
    );
    assert forall|t: int| 0 <= t < STENCIL_POINTS && !(#[trigger] w[t]).is_zero_spec() implies taken[t]
        == values[t] by {
        let p = slice_point(x0, eps, ind, t as nat);
        assert(may_return(f, p, taken[t]));
    }
    lemma_weighted_sum_reads_below(w, taken, values, STENCIL_POINTS as nat);
}

/// Where `f` computes the function `g` of what a matrix holds, each entry of its gradient
/// is the partial-derivative estimate of `g` along that entry's coordinate.
pub proof fn lemma_gradient_value<S: Scalar, F: Fn(Matrix<S>) -> S>(
    f: &F,
    g: spec_fn(MatrixView<S>) -> S,
    x0: MatrixView<S>,
    eps: S,
    gradient: MatrixView<S>,
)
    requires
        forall|m: Matrix<S>, y: S| #[trigger] f.ensures((m,), y) ==> y == g(m@),
        is_gradient(f, x0, eps, gradient),
    ensures
        forall|i: int|
            0 <= i < x0.ncols ==> #[trigger] gradient.entries[i] == partial_value(g, x0, eps, i),
{
    assert forall|i: int| 0 <= i < x0.ncols implies #[trigger] gradient.entries[i]
        == partial_value(g, x0, eps, i) by {
        lemma_partial_estimate_value(f, g, x0, eps, i, gradient.entries[i]);
    }
}

} // verus!
