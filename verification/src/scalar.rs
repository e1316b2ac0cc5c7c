//! The arithmetic that the differentiation and comparison routines are written against.
//!
//! Every routine of this crate is generic over a [`Scalar`]: a value type together with the
//! handful of operations that finite differences need.  Each operation has a ghost
//! counterpart (`add_spec` for `add`, and so on) that stands for its result in contracts, so
//! that a contract can say exactly which operations were applied to which values, in which
//! order, without assuming that the arithmetic is exact, associative or even ordered.

use vstd::prelude::*;

verus! {

/// A value type with rounding arithmetic, a partial order and a test for zero.
///
/// The operations are total: none of them has a precondition, and an implementation decides
/// what overflow or division by zero yield.  The order may leave two values unordered (as
/// it does for a value that is not a number); the two laws below are all that the crate
/// relies on.
pub trait Scalar: Copy {
    /// The value that stands for the integer `n`.
    spec fn from_i32_spec(n: i32) -> Self;

    /// The value that stands for the count `n`.
    spec fn from_usize_spec(n: usize) -> Self;

    /// The sum of two values.
    spec fn add_spec(self, rhs: Self) -> Self;

    /// The difference of two values.
    spec fn sub_spec(self, rhs: Self) -> Self;

    /// The product of two values.
    spec fn mul_spec(self, rhs: Self) -> Self;

    /// The quotient of two values.
    spec fn div_spec(self, rhs: Self) -> Self;

    /// The magnitude of a value.
    spec fn abs_spec(self) -> Self;

    /// Whether `self` is at most `rhs`.
    spec fn le_spec(self, rhs: Self) -> bool;

    /// Whether `self` is strictly below `rhs`.
    spec fn lt_spec(self, rhs: Self) -> bool;

    /// Whether `self` compares equal to zero.
    spec fn is_zero_spec(self) -> bool;

    /// No value is both at most another and strictly above it.
    proof fn lemma_le_excludes_gt(a: Self, b: Self)
        ensures
            !(a.le_spec(b) && b.lt_spec(a)),
    ;

    /// The magnitude of a difference does not depend on the order of the operands, unless
    /// both magnitudes are unordered against every value.
    proof fn lemma_abs_sub_symmetric(a: Self, b: Self)
        ensures
            a.sub_spec(b).abs_spec() == b.sub_spec(a).abs_spec() || forall|t: Self|
                {
                    &&& !(#[trigger] a.sub_spec(b).abs_spec().le_spec(t))
                    &&& !t.lt_spec(a.sub_spec(b).abs_spec())
                    &&& !(#[trigger] b.sub_spec(a).abs_spec().le_spec(t))
                    &&& !t.lt_spec(b.sub_spec(a).abs_spec())
                },
    ;

    fn from_i32(n: i32) -> (r: Self)
        ensures
            r == Self::from_i32_spec(n),
    ;

    fn from_usize(n: usize) -> (r: Self)
        ensures
            r == Self::from_usize_spec(n),
    ;

    fn add(self, rhs: Self) -> (r: Self)
        ensures
            r == self.add_spec(rhs),
    ;

    fn sub(self, rhs: Self) -> (r: Self)
        ensures
            r == self.sub_spec(rhs),
    ;

    fn mul(self, rhs: Self) -> (r: Self)
        ensures
            r == self.mul_spec(rhs),
    ;

    fn div(self, rhs: Self) -> (r: Self)
        ensures
            r == self.div_spec(rhs),
    ;

    fn abs(self) -> (r: Self)
        ensures
            r == self.abs_spec(),
    ;

    fn le(self, rhs: Self) -> (r: bool)
        ensures
            r == self.le_spec(rhs),
    ;

    fn lt(self, rhs: Self) -> (r: bool)
        ensures
            r == self.lt_spec(rhs),
    ;

    fn is_zero(self) -> (r: bool)
        ensures
            r == self.is_zero_spec(),
    ;
}

} // verus!
