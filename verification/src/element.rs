//! The arithmetic that a matrix asks of its elements.

use vstd::prelude::*;

verus! {

/// Quotient of `a` by `b` rounded toward zero, as machine integers divide.
pub open spec fn quot(a: int, b: int) -> int {
    if a >= 0 {
        a / b
    } else {
        -((-a) / b)
    }
}

/// Dividing by -1 negates.
proof fn lemma_quot_by_minus_one(a: int)
    ensures
        quot(a, -1) == -a,
{
    assert(a >= 0 ==> a / -1 == -a) by (nonlinear_arith);
    assert(a < 0 ==> (-a) / -1 == a) by (nonlinear_arith);
}

/// An element type: a copyable value that stands for an integer and offers
/// ring arithmetic and division on the integers that it can hold.
pub trait Element: Copy {
    /// The integer that this element stands for.
    spec fn val(self) -> int;

    /// Whether the type can hold the integer `v`.
    spec fn fits(v: int) -> bool;

    /// Every element stands for an integer that the type can hold.
    proof fn lemma_val_fits(self)
        ensures
            Self::fits(self.val()),
    ;

    /// The type can hold zero and one.
    proof fn lemma_identities_fit()
        ensures
            Self::fits(0),
            Self::fits(1),
    ;

    /// Two elements that stand for the same integer are the same element.
    proof fn lemma_val_injective(self, other: Self)
        requires
            self.val() == other.val(),
        ensures
            self == other,
    ;

    /// The additive identity.
    fn zero() -> (r: Self)
        ensures
            r.val() == 0,
    ;

    /// The multiplicative identity.
    fn one() -> (r: Self)
        ensures
            r.val() == 1,
    ;

    /// The sum of two elements.
    fn plus(self, rhs: Self) -> (r: Self)
        requires
            Self::fits(self.val() + rhs.val()),
        ensures
            r.val() == self.val() + rhs.val(),
    ;

    /// The difference of two elements.
    fn minus(self, rhs: Self) -> (r: Self)
        requires
            Self::fits(self.val() - rhs.val()),
        ensures
            r.val() == self.val() - rhs.val(),
    ;

    /// The product of two elements.
    fn times(self, rhs: Self) -> (r: Self)
        requires
            Self::fits(self.val() * rhs.val()),
        ensures
            r.val() == self.val() * rhs.val(),
    ;

    /// The quotient of two elements, rounded toward zero.
    fn over(self, rhs: Self) -> (r: Self)
        requires
            rhs.val() != 0,
            Self::fits(quot(self.val(), rhs.val())),
        ensures
            r.val() == quot(self.val(), rhs.val()),
    ;

    /// The additive inverse of an element.
    fn negated(self) -> (r: Self)
        requires
            Self::fits(-self.val()),
        ensures
            r.val() == -self.val(),
    ;
}

/// Calls `num_traits::Zero::zero` for `i32`, which that crate implements by
/// the literal `0`: the result is zero.
#[verifier::external_body]
fn zero_i32() -> (r: i32)
    ensures
        r == 0,
{
    <i32 as num_traits::Zero>::zero()
}

/// Calls `num_traits::One::one` for `i32`, which that crate implements by the
/// literal `1`: the result is one.
#[verifier::external_body]
fn one_i32() -> (r: i32)
    ensures
        r == 1,
{
    <i32 as num_traits::One>::one()
}

impl Element for i32 {
    open spec fn val(self) -> int {
        self as int
    }

    open spec fn fits(v: int) -> bool {
        i32::MIN <= v <= i32::MAX
    }

    proof fn lemma_val_fits(self) {
    }

    proof fn lemma_identities_fit() {
    }

    proof fn lemma_val_injective(self, other: Self) {
    }

    fn zero() -> (r: Self) {
        zero_i32()
    }

    fn one() -> (r: Self) {
        one_i32()
    }

    fn plus(self, rhs: Self) -> (r: Self) {
        self + rhs
    }

    fn minus(self, rhs: Self) -> (r: Self) {
        self - rhs
    }

    fn times(self, rhs: Self) -> (r: Self) {
        self * rhs
    }

    fn over(self, rhs: Self) -> (r: Self) {
        proof {
            lemma_quot_by_minus_one(self as int);
        }
        self / rhs
    }

    fn negated(self) -> (r: Self) {
        -self
    }
}

/// Calls `num_traits::Zero::zero` for `i64`, which that crate implements by
/// the literal `0`: the result is zero.
#[verifier::external_body]
fn zero_i64() -> (r: i64)
    ensures
        r == 0,
{
    <i64 as num_traits::Zero>::zero()
}

/// Calls `num_traits::One::one` for `i64`, which that crate implements by the
/// literal `1`: the result is one.
#[verifier::external_body]
fn one_i64() -> (r: i64)
    ensures
        r == 1,
{
    <i64 as num_traits::One>::one()
}

impl Element for i64 {
    open spec fn val(self) -> int {
        self as int
    }

    open spec fn fits(v: int) -> bool {
        i64::MIN <= v <= i64::MAX
    }

    proof fn lemma_val_fits(self) {
    }

    proof fn lemma_identities_fit() {
    }

    proof fn lemma_val_injective(self, other: Self) {
    }

    fn zero() -> (r: Self) {
        zero_i64()
    }

    fn one() -> (r: Self) {
        one_i64()
    }

    fn plus(self, rhs: Self) -> (r: Self) {
        self + rhs
    }

    fn minus(self, rhs: Self) -> (r: Self) {
        self - rhs
    }

    fn times(self, rhs: Self) -> (r: Self) {
        self * rhs
    }

    fn over(self, rhs: Self) -> (r: Self) {
        proof {
            lemma_quot_by_minus_one(self as int);
        }
        self / rhs
    }

    fn negated(self) -> (r: Self) {
        -self
    }
}

/// Calls `num_traits::Zero::zero` for `isize`, which that crate implements by
/// the literal `0`: the result is zero.
#[verifier::external_body]
fn zero_isize() -> (r: isize)
    ensures
        r == 0,
{
    <isize as num_traits::Zero>::zero()
}

/// Calls `num_traits::One::one` for `isize`, which that crate implements by the
/// literal `1`: the result is one.
#[verifier::external_body]
fn one_isize() -> (r: isize)
    ensures
        r == 1,
{
    <isize as num_traits::One>::one()
}

impl Element for isize {
    open spec fn val(self) -> int {
        self as int
    }

    open spec fn fits(v: int) -> bool {
        isize::MIN <= v <= isize::MAX
    }

    proof fn lemma_val_fits(self) {
    }

    proof fn lemma_identities_fit() {
    }

    proof fn lemma_val_injective(self, other: Self) {
    }

    fn zero() -> (r: Self) {
        zero_isize()
    }

    fn one() -> (r: Self) {
        one_isize()
    }

    fn plus(self, rhs: Self) -> (r: Self) {
        self + rhs
    }

    fn minus(self, rhs: Self) -> (r: Self) {
        self - rhs
    }

    fn times(self, rhs: Self) -> (r: Self) {
        self * rhs
    }

    fn over(self, rhs: Self) -> (r: Self) {
        proof {
            lemma_quot_by_minus_one(self as int);
        }
        self / rhs
    }

    fn negated(self) -> (r: Self) {
        -self
    }
}

} // verus!
