//! Fixed-point arithmetic, and the routines run on it.

use numdiff::appr_cmp::{approx_eq, approx_eq_mat, ApproxEqError};
use numdiff::diff::{cfd, cfd2, df1, df2, df_abstr, grad, partial_der, DiffError};
use numdiff::fixed::{Fixed, ONE_RAW};
use numdiff::jac::jac_mat;
use numdiff::matrix::Matrix;
use numdiff::scalar::Scalar;

fn whole(n: i32) -> Fixed {
    Fixed::from_i32(n)
}

fn ratio(num: i32, den: i32) -> Fixed {
    whole(num).div(whole(den))
}

#[test]
fn one_has_thirty_two_fractional_bits() {
    assert_eq!(ONE_RAW, 1i64 << 32);
    assert_eq!(whole(1).raw, 1i64 << 32);
    assert_eq!(whole(-3).raw, -3 * (1i64 << 32));
    assert_eq!(whole(i32::MAX).raw, (i32::MAX as i64) << 32);
    assert_eq!(whole(i32::MIN).raw, i64::MIN);
    assert_eq!(Fixed::from_raw(17).raw, 17);
}

#[test]
fn counts_saturate() {
    assert_eq!(Fixed::from_usize(0).raw, 0);
    assert_eq!(Fixed::from_usize(12).raw, 12 * ONE_RAW);
    assert_eq!(Fixed::from_usize((1usize << 31) - 1).raw, ((1i64 << 31) - 1) << 32);
    assert_eq!(Fixed::from_usize(1usize << 31).raw, i64::MAX);
    assert_eq!(Fixed::from_usize(usize::MAX).raw, i64::MAX);
}

#[test]
fn sums_and_differences_saturate() {
    assert_eq!(whole(2).add(whole(3)), whole(5));
    assert_eq!(whole(2).sub(whole(3)), whole(-1));
    let top = Fixed::from_raw(i64::MAX);
    let bottom = Fixed::from_raw(i64::MIN);
    assert_eq!(top.add(Fixed::from_raw(1)), top);
    assert_eq!(bottom.sub(Fixed::from_raw(1)), bottom);
    assert_eq!(bottom.add(Fixed::from_raw(-1)), bottom);
    assert_eq!(top.sub(bottom), top);
    assert_eq!(bottom.sub(top), bottom);
}

#[test]
fn products_round_toward_zero() {
    assert_eq!(ratio(3, 2).mul(ratio(5, 2)), ratio(15, 4));
    assert_eq!(whole(-4).mul(ratio(1, 2)), whole(-2));
    assert_eq!(Fixed::from_raw(3).mul(ratio(1, 2)).raw, 1);
    assert_eq!(Fixed::from_raw(-3).mul(ratio(1, 2)).raw, -1);
    assert_eq!(Fixed::from_raw(1).mul(Fixed::from_raw(1)).raw, 0);
    assert_eq!(whole(i32::MAX).mul(whole(2)).raw, i64::MAX);
    assert_eq!(whole(i32::MAX).mul(whole(-3)).raw, i64::MIN);
}

#[test]
fn quotients_round_toward_zero() {
    assert_eq!(whole(7).div(whole(2)), ratio(7, 2));
    assert_eq!(ratio(1, 3).raw, 1431655765);
    assert_eq!(ratio(-1, 3).raw, -1431655765);
    assert_eq!(ratio(1, -3).raw, -1431655765);
    assert_eq!(ratio(-1, -3).raw, 1431655765);
    assert_eq!(whole(1).div(Fixed::from_raw(1)).raw, i64::MAX);
    assert_eq!(whole(-1).div(Fixed::from_raw(1)).raw, i64::MIN);
}

#[test]
fn quotients_by_zero_saturate() {
    assert_eq!(whole(5).div(whole(0)).raw, i64::MAX);
    assert_eq!(whole(-5).div(whole(0)).raw, i64::MIN);
    assert_eq!(whole(0).div(whole(0)).raw, 0);
}

#[test]
fn magnitudes_and_order() {
    assert_eq!(whole(-3).abs(), whole(3));
    assert_eq!(whole(3).abs(), whole(3));
    assert_eq!(Fixed::from_raw(i64::MIN).abs().raw, i64::MAX);
    assert!(whole(2).le(whole(2)));
    assert!(!whole(2).lt(whole(2)));
    assert!(whole(-1).lt(whole(0)));
    assert!(!whole(1).le(whole(0)));
    assert!(whole(0).is_zero());
    assert!(!Fixed::from_raw(1).is_zero());
}

#[test]
fn a_discrepancy_equal_to_the_tolerance_passes() {
    match approx_eq(whole(1), ratio(3, 2), ratio(1, 2)) {
        Ok(d) => assert_eq!(d, ratio(1, 2)),
        Err(_) => panic!("a discrepancy equal to the tolerance must pass"),
    }
    match approx_eq(whole(1), ratio(3, 2), Fixed::from_raw(ratio(1, 2).raw - 1)) {
        Err(ApproxEqError::ToleranceExceeded(d)) => assert_eq!(d, ratio(1, 2)),
        _ => panic!("a discrepancy above the tolerance must fail with it"),
    }
}

#[test]
fn comparison_is_symmetric_on_fixed_point() {
    let pairs = [(3, 7), (-5, 9), (0, 0), (i32::MAX, i32::MIN), (12, -12)];
    for (a, b) in pairs {
        for tol in [0, 4, 24, i32::MAX] {
            let one_way = approx_eq(whole(a), whole(b), whole(tol));
            let other_way = approx_eq(whole(b), whole(a), whole(tol));
            match (one_way, other_way) {
                (Ok(d1), Ok(d2)) => assert_eq!(d1, d2),
                (
                    Err(ApproxEqError::ToleranceExceeded(d1)),
                    Err(ApproxEqError::ToleranceExceeded(d2)),
                ) => assert_eq!(d1, d2),
                _ => panic!("the two orders disagree"),
            }
        }
    }
}

#[test]
fn the_weights_in_fixed_point() {
    let first: Vec<i64> = cfd::<Fixed>().iter().map(|w| w.raw).collect();
    assert_eq!(first, vec![357913941, -2863311530, 0, 2863311530, -357913941]);
    let second: Vec<i64> = cfd2::<Fixed>().iter().map(|w| w.raw).collect();
    assert_eq!(second, vec![-357913941, 5726623061, -10737418240, 5726623061, -357913941]);
}

#[test]
fn a_stencil_of_whole_weights_is_exact() {
    let square = |x: Fixed| x.mul(x);
    let coeffs = [whole(1), whole(0), whole(-2), whole(0), whole(1)];
    let half = ratio(1, 2);
    assert_eq!(df_abstr(&square, whole(3), half, coeffs, 2), Ok(whole(8)));
    assert_eq!(df_abstr(&square, whole(3), half, coeffs, 1), Ok(whole(4)));
    assert_eq!(df_abstr(&square, whole(3), half, coeffs, 0), Ok(whole(2)));
    assert_eq!(df_abstr(&square, whole(3), half, coeffs, -1), Ok(whole(1)));
    assert_eq!(df_abstr(&square, whole(3), half, coeffs, -2), Ok(ratio(1, 2)));
}

#[test]
fn derivatives_of_a_square_in_fixed_point() {
    let square = |x: Fixed| x.mul(x);
    let quarter = ratio(1, 4);
    assert_eq!(df1(&square, whole(3), quarter), Ok(whole(6)));
    assert_eq!(df2(&square, whole(3), quarter), Ok(Fixed::from_raw(8589934576)));
}

#[test]
fn derivatives_of_a_cubic_in_fixed_point() {
    let f = |x: Fixed| whole(3).mul(x.mul(x).mul(x)).sub(whole(1));
    let eps = ratio(1, 1000);
    assert_eq!(eps.raw, 4294967);
    let first = df1(&f, whole(1), eps).unwrap();
    let second = df2(&f, whole(1), eps).unwrap();
    assert_eq!(first.raw, 38654705664);
    assert_eq!(second.raw, 77316412904);
    let tol = ratio(15, 100);
    assert!(approx_eq(whole(9), first, tol).is_ok());
    assert!(approx_eq(whole(18), second, tol).is_ok());
}

#[test]
fn a_gradient_in_fixed_point() {
    let f = |p: Matrix<Fixed>| p.at(0).mul(p.at(0)).add(whole(3).mul(p.at(1)));
    let x0 = Matrix::from_row_slice(1, 2, &[whole(3), whole(5)]);
    let quarter = ratio(1, 4);
    let g = grad(&f, &x0, quarter).unwrap();
    assert_eq!(g.shape(), (1, 2));
    assert_eq!(g.at(0), partial_der(&f, &x0, quarter, 0).unwrap());
    assert_eq!(g.at(1), partial_der(&f, &x0, quarter, 1).unwrap());
    assert_eq!(g.at(0), whole(6));
    let tol = Fixed::from_raw(16);
    assert!(approx_eq(g.at(1), whole(3), tol).is_ok());
}

#[test]
fn a_gradient_needs_a_single_row() {
    let f = |p: Matrix<Fixed>| p.at(0);
    let two_rows = Matrix::repeat(2, 2, whole(1));
    assert_eq!(grad(&f, &two_rows, ratio(1, 4)).err(), Some(DiffError::ShapeMismatch));
    let none: [Fixed; 0] = [];
    let no_rows = Matrix::from_row_slice(0, 3, &none);
    assert_eq!(grad(&f, &no_rows, ratio(1, 4)).err(), Some(DiffError::ShapeMismatch));
}

#[test]
fn a_jacobian_in_fixed_point() {
    let f = |p: Matrix<Fixed>| {
        Matrix::from_row_slice(
            1,
            2,
            &[p.at(0).add(whole(2).mul(p.at(1))), whole(3).mul(p.at(0)).add(whole(4).mul(p.at(1)))],
        )
    };
    let x0 = Matrix::from_row_slice(1, 2, &[whole(1), whole(2)]);
    let jac = jac_mat(&f, &x0, ratio(1, 4)).unwrap();
    assert_eq!(jac.shape(), (2, 2));
    let expected = Matrix::from_row_slice(2, 2, &[whole(1), whole(3), whole(2), whole(4)]);
    assert!(approx_eq_mat(&jac, &expected, Fixed::from_raw(64)).is_ok());
}

#[test]
fn failures_describe_themselves() {
    let exceeded = approx_eq(whole(1), whole(3), whole(1)).unwrap_err();
    assert_eq!(exceeded.to_string(), "Non-equal parts");
    let a = Matrix::repeat(1, 2, whole(0));
    let b = Matrix::repeat(2, 1, whole(0));
    let mismatch = approx_eq_mat(&a, &b, whole(1)).unwrap_err();
    assert_eq!(mismatch.to_string(), "Non-equal parts");
}
