//! Matrix multiplication.

use crate::algebra::{dot, dot_fits, product, product_fits, step_fits};
use crate::element::Element;
use crate::Matrix;
use std::ops::Mul;
use vstd::prelude::*;
use vstd::std_specs::ops::MulSpecImpl;

verus! {

impl<T: Element, const ROWS: usize, const COLS: usize, const OTHER_COLS: usize> MulSpecImpl<
    Matrix<T, COLS, OTHER_COLS>,
> for Matrix<T, ROWS, COLS> {
    open spec fn obeys_mul_spec() -> bool {
        true
    }

    /// Every term and every partial sum of the product fits the element type.
    open spec fn mul_req(self, rhs: Matrix<T, COLS, OTHER_COLS>) -> bool {
        product_fits::<T>(self@, rhs@, OTHER_COLS as nat)
    }

    /// The matrix whose entries are those of the product.
    open spec fn mul_spec(self, rhs: Matrix<T, COLS, OTHER_COLS>) -> Matrix<T, ROWS, OTHER_COLS> {
        choose|m: Matrix<T, ROWS, OTHER_COLS>| m@ == product(self@, rhs@, OTHER_COLS as nat)
    }
}

impl<T: Element, const ROWS: usize, const COLS: usize, const OTHER_COLS: usize> Mul<
    Matrix<T, COLS, OTHER_COLS>,
> for Matrix<T, ROWS, COLS> {
    type Output = Matrix<T, ROWS, OTHER_COLS>;

    /// The matrix product: entry `(i, j)` is the sum over `k`, in increasing
    /// order and starting from zero, of `self(i, k) * rhs(k, j)`.
    #[inline]
    fn mul(self, rhs: Matrix<T, COLS, OTHER_COLS>) -> (result: Matrix<T, ROWS, OTHER_COLS>)
        ensures
            result@ == product(self@, rhs@, OTHER_COLS as nat),
    {
        let mut result: Matrix<T, ROWS, OTHER_COLS> = Matrix::zeroes();
        for i in 0..ROWS
            invariant
                product_fits::<T>(self@, rhs@, OTHER_COLS as nat),
                forall|r: int, c: int|
                    0 <= r < i && 0 <= c < OTHER_COLS ==> (#[trigger] result.at(r, c)).val() == dot(
                        self@,
                        rhs@,
                        r,
                        c,
                        COLS as nat,
                    ),
        {
            for j in 0..OTHER_COLS
                invariant
                    0 <= i < ROWS,
                    product_fits::<T>(self@, rhs@, OTHER_COLS as nat),
                    forall|r: int, c: int|
                        0 <= r < i && 0 <= c < OTHER_COLS ==> (#[trigger] result.at(r, c)).val() == dot(
                            self@,
                            rhs@,
                            r,
                            c,
                            COLS as nat,
                        ),
                    forall|c: int|
                        0 <= c < j ==> (#[trigger] result.at(i as int, c)).val() == dot(
                            self@,
                            rhs@,
                            i as int,
                            c,
                            COLS as nat,
                        ),
            {
                let mut sum = T::zero();
                assert(self@.len() == ROWS && rhs@.len() == COLS);
                for k in 0..COLS
                    invariant
                        0 <= i < ROWS,
                        0 <= j < OTHER_COLS,
                        dot_fits::<T>(self@, rhs@, i as int, j as int, COLS as nat),
                        sum.val() == dot(self@, rhs@, i as int, j as int, k as nat),
                {
                    assert(step_fits::<T>(self@, rhs@, i as int, j as int, k as int));
                    sum = sum.plus(self.0[i][k].times(rhs.0[k][j]));
                }
                result.set(i, j, sum);
            }
        }
        assert(result@ =~~= product(self@, rhs@, OTHER_COLS as nat));
        proof {
            let p = product(self@, rhs@, OTHER_COLS as nat);
            let m = choose|m: Matrix<T, ROWS, OTHER_COLS>| m@ == p;
            Matrix::lemma_view_injective(result, m);
        }
        result
    }
}

} // verus!
