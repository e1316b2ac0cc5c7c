//! The routines on single-precision floating-point numbers.

use numdiff::appr_cmp::{approx_eq, approx_eq_mat, ApproxEqError};
use numdiff::diff::{cfd, cfd2, df1, df2, grad, partial_der};
use numdiff::jac::jac_mat;
use numdiff::matrix::Matrix;
use numdiff::scalar::Scalar;

#[derive(Clone, Copy, Debug, PartialEq)]
struct Real(f32);

impl Scalar for Real {
    fn from_i32(n: i32) -> Self {
        Real(n as f32)
    }

    fn from_usize(n: usize) -> Self {
        Real(n as f32)
    }

    fn add(self, rhs: Self) -> Self {
        Real(self.0 + rhs.0)
    }

    fn sub(self, rhs: Self) -> Self {
        Real(self.0 - rhs.0)
    }

    fn mul(self, rhs: Self) -> Self {
        Real(self.0 * rhs.0)
    }

    fn div(self, rhs: Self) -> Self {
        Real(self.0 / rhs.0)
    }

    fn abs(self) -> Self {
        Real(self.0.abs())
    }

    fn le(self, rhs: Self) -> bool {
        self.0 <= rhs.0
    }

    fn lt(self, rhs: Self) -> bool {
        self.0 < rhs.0
    }

    fn is_zero(self) -> bool {
        self.0 == 0.0
    }

    // The model of each operation is the operation itself, and the laws are those of
    // floating-point arithmetic.
    fn from_i32_spec(n: i32) -> Self {
        Self::from_i32(n)
    }

    fn from_usize_spec(n: usize) -> Self {
        Self::from_usize(n)
    }

    fn add_spec(self, rhs: Self) -> Self {
        self.add(rhs)
    }

    fn sub_spec(self, rhs: Self) -> Self {
        self.sub(rhs)
    }

    fn mul_spec(self, rhs: Self) -> Self {
        self.mul(rhs)
    }

    fn div_spec(self, rhs: Self) -> Self {
        self.div(rhs)
    }

    fn abs_spec(self) -> Self {
        self.abs()
    }

    fn le_spec(self, rhs: Self) -> bool {
        self.le(rhs)
    }

    fn lt_spec(self, rhs: Self) -> bool {
        self.lt(rhs)
    }

    fn is_zero_spec(self) -> bool {
        self.is_zero()
    }

    fn lemma_le_excludes_gt(_: Self, _: Self) {}

    fn lemma_abs_sub_symmetric(_: Self, _: Self) {}
}

fn row(values: &[f32]) -> Matrix<Real> {
    rows(1, values.len(), values)
}

fn rows(nrows: usize, ncols: usize, values: &[f32]) -> Matrix<Real> {
    let entries: Vec<Real> = values.iter().map(|v| Real(*v)).collect();
    Matrix::from_row_slice(nrows, ncols, &entries)
}

#[test]
fn appr_cmp_test_approx_eq() {
    let v1 = Real(1.0);
    let v2 = Real(1.01);
    let tol = Real(0.011);
    println!("{}", approx_eq(v1, v2, tol).unwrap().0);
    println!("{}", approx_eq(v2, v1, tol).unwrap().0);
}

#[test]
#[should_panic]
fn appr_cmp_test_approx_eq_false() {
    let v1 = Real(1.0);
    let v2 = Real(1.01);
    let tol = Real(0.009);
    println!("{}", approx_eq(v1, v2, tol).unwrap().0);
    println!("{}", approx_eq(v2, v1, tol).unwrap().0);
}

#[test]
fn lib_test_approx_eq() {
    let v1 = Real(1.0);
    let v2 = Real(1.01);
    let tol = Real(0.011);
    println!("{}", numdiff::approx_eq(v1, v2, tol).unwrap().0);
    println!("{}", numdiff::approx_eq(v2, v1, tol).unwrap().0);
}

#[test]
#[should_panic]
fn lib_test_approx_eq_false() {
    let v1 = Real(1.0);
    let v2 = Real(1.01);
    let tol = Real(0.009);
    println!("{}", numdiff::approx_eq(v1, v2, tol).unwrap().0);
    println!("{}", numdiff::approx_eq(v2, v1, tol).unwrap().0);
}

#[test]
fn test_approx_eq_mat() {
    let v1 = rows(4, 3, &[1.0, 0.0, 0.0, 0.0, 1.0, 0.0, 0.0, 0.0, 1.0, 0.0, 0.0, 0.0]);
    let v2 = rows(4, 3, &[1.01, 0.0, 0.0, 0.0, 1.01, 0.0, 0.0, 0.0, 1.01, 0.0, 0.0, 0.0]);
    let tol = Real(0.011);
    println!("{}", approx_eq_mat(&v1, &v2, tol).unwrap().0);
    println!("{}", approx_eq_mat(&v2, &v1, tol).unwrap().0);
}

#[test]
#[should_panic]
fn test_approx_eq_mat_false() {
    let v1 = rows(4, 3, &[1.0, 0.0, 0.0, 0.0, 1.0, 0.0, 0.0, 0.0, 1.0, 0.0, 0.0, 0.0]);
    let v2 = rows(4, 3, &[1.01, 0.0, 0.0, 0.0, 1.01, 0.0, 0.0, 0.0, 1.01, 0.0, 0.0, 0.0]);
    let tol = Real(0.009);
    println!("{}", approx_eq_mat(&v1, &v2, tol).unwrap().0);
    println!("{}", approx_eq_mat(&v2, &v1, tol).unwrap().0);
}

#[test]
fn test_partial_der() {
    let f = |x: Matrix<Real>| Real(x.at(0).0.powi(3) * x.at(1).0 - x.at(1).0.powi(3) * x.at(0).0);
    let dfdx = |x: Matrix<Real>| Real(3.0 * x.at(0).0.powi(2) * x.at(1).0 - x.at(1).0.powi(3));
    let dfdy = |x: Matrix<Real>| Real(-3.0 * x.at(0).0 * x.at(1).0.powi(2) + x.at(0).0.powi(3));
    let x0 = row(&[1.0, 2.0]);
    let eps = Real(1e-3);
    let tol = Real(1e-1);
    let num_dfdx = partial_der(&f, &x0, eps, 0).unwrap();
    let num_dfdy = partial_der(&f, &x0, eps, 1).unwrap();
    let num_grad = grad(&f, &x0, eps).unwrap();
    println!("{}", approx_eq(num_dfdx, dfdx(x0.clone()), tol).unwrap().0);
    println!("{}", approx_eq(num_dfdy, dfdy(x0.clone()), tol).unwrap().0);
    let analytic = Matrix::from_row_slice(1, 2, &[dfdx(x0.clone()), dfdy(x0.clone())]);
    println!("{}", approx_eq_mat(&num_grad, &analytic, tol).unwrap().0);
}

fn target(x0: Matrix<Real>) -> Matrix<Real> {
    let mut x1 = x0.clone();
    x1.set_at(0, Real(x0.at(0).0 * x0.at(1).0.powi(2)));
    x1.set_at(1, Real(x0.at(1).0 * x0.at(0).0.powi(2)));
    x1
}

fn target_jac(x0: Matrix<Real>) -> Matrix<Real> {
    let mut x1 = Matrix::repeat(x0.ncols(), x0.ncols(), Real(0.0));
    x1.set(0, 0, Real(x0.at(1).0.powi(2)));
    x1.set(0, 1, Real(2.0 * x0.at(0).0 * x0.at(1).0));
    x1.set(1, 0, Real(2.0 * x0.at(0).0 * x0.at(1).0));
    x1.set(1, 1, Real(x0.at(0).0.powi(2)));
    x1
}

#[test]
fn test_jac_mat() {
    let x0 = row(&[1.2, 3.1]);
    let eps = Real(1e-3);
    let tol = Real(1e-1);
    let num_jac = jac_mat(&target, &x0, eps).unwrap();
    let a_jac = target_jac(x0);
    println!("{}", approx_eq_mat(&num_jac, &a_jac, tol).unwrap().0);
}

#[test]
fn the_discrepancy_is_returned_to_the_last_bit() {
    let d = approx_eq(Real(1.0), Real(1.01), Real(0.011)).unwrap();
    assert_eq!(d.0.to_bits(), 0x3c23d700);
    let back = approx_eq(Real(1.01), Real(1.0), Real(0.011)).unwrap();
    assert_eq!(back.0.to_bits(), 0x3c23d700);
    match approx_eq(Real(1.0), Real(1.01), Real(0.009)) {
        Err(ApproxEqError::ToleranceExceeded(d)) => assert_eq!(d.0.to_bits(), 0x3c23d700),
        _ => panic!("a discrepancy above the tolerance must fail with it"),
    }
}

#[test]
fn the_mean_is_the_total_over_the_number_of_entries() {
    let v1 = rows(4, 3, &[1.0, 0.0, 0.0, 0.0, 1.0, 0.0, 0.0, 0.0, 1.0, 0.0, 0.0, 0.0]);
    let v2 = rows(4, 3, &[1.01, 0.0, 0.0, 0.0, 1.01, 0.0, 0.0, 0.0, 1.01, 0.0, 0.0, 0.0]);
    let mean = approx_eq_mat(&v1, &v2, Real(0.011)).unwrap();
    assert_eq!(mean.0.to_bits(), 0x3b23d700);
}

#[test]
fn the_weights_in_single_precision() {
    let first: Vec<f32> = cfd::<Real>().iter().map(|w| w.0).collect();
    assert_eq!(first, vec![1. / 12., -2. / 3., 0.0, 2. / 3., -1. / 12.]);
    let second: Vec<f32> = cfd2::<Real>().iter().map(|w| w.0).collect();
    assert_eq!(second, vec![-1. / 12., 4. / 3., -5. / 2., 4. / 3., -1. / 12.]);
    let bits: Vec<u32> = first.iter().map(|w| w.to_bits()).collect();
    assert_eq!(bits, vec![0x3daaaaab, 0xbf2aaaab, 0x00000000, 0x3f2aaaab, 0xbdaaaaab]);
}

// At a step of a thousandth the round-off of single precision is small against the first
// derivative and dominates the second.
#[test]
fn derivatives_of_a_cubic_in_single_precision() {
    let f = |x: Real| Real(3.0 * (x.0 * x.0 * x.0) - 1.0);
    let first = df1(&f, Real(1.0), Real(1e-3)).unwrap();
    assert_eq!(first.0.to_bits(), 0x41100042);
    assert!(approx_eq(Real(9.0), first, Real(0.15)).is_ok());
    let second = df2(&f, Real(1.0), Real(1e-3)).unwrap();
    assert_eq!(second.0.to_bits(), 0x4196ae37);
    assert!(approx_eq(Real(18.0), second, Real(1.0)).is_ok());
}

#[test]
fn partial_derivatives_in_single_precision() {
    let f = |p: Matrix<Real>| {
        let (x, y) = (p.at(0).0, p.at(1).0);
        Real((x * x * x) * y - (y * y * y) * x)
    };
    let x0 = row(&[1.0, 2.0]);
    let by_x = partial_der(&f, &x0, Real(1e-3), 0).unwrap();
    let by_y = partial_der(&f, &x0, Real(1e-3), 1).unwrap();
    assert_eq!(by_x.0.to_bits(), 0xbffffd33);
    assert_eq!(by_y.0.to_bits(), 0xc12ffc3e);
    let g = grad(&f, &x0, Real(1e-3)).unwrap();
    assert_eq!(g.shape(), (1, 2));
    assert_eq!(g.at(0), by_x);
    assert_eq!(g.at(1), by_y);
}
