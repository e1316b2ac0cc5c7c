//! Numerical differentiation by finite differences: first and second derivatives of
//! functions of one variable, partial derivatives, gradients and Jacobians of functions of
//! several, and the comparison within a tolerance by which such estimates are held against
//! known derivatives.
//!
//! Every routine is generic over the arithmetic in [`scalar`]; [`fixed`] is one such
//! arithmetic.  A contract names each operation that went into a result, in the order in
//! which it was applied, so it holds to the last bit in an arithmetic that rounds.

use vstd::prelude::*;

pub mod appr_cmp;
pub mod diff;
pub mod fixed;
pub mod jac;
pub mod matrix;
pub mod scalar;

pub use crate::appr_cmp::{approx_eq, ApproxEqError};

verus! {

/// The sum of two counts.
pub fn add(left: usize, right: usize) -> (sum: usize)
    requires
        left + right <= usize::MAX,
    ensures
        sum == left + right,
{
    left + right
}

} // verus!
