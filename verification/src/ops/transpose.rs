//! Transposition.

use crate::element::Element;
use crate::Matrix;
use vstd::prelude::*;

verus! {

impl<T: Element, const ROWS: usize, const COLS: usize> Matrix<T, ROWS, COLS> {
    /// Whether `other` is `self` with rows and columns exchanged: its
    /// element in row `j` and column `i` is the element of `self` in row `i`
    /// and column `j`.
    pub open spec fn is_transposed_by(self, other: Matrix<T, COLS, ROWS>) -> bool {
        forall|i: int, j: int|
            0 <= i < ROWS && 0 <= j < COLS ==> #[trigger] other.at(j, i) == self.at(i, j)
    }

    /// The matrix with rows and columns exchanged.
    pub fn transpose(&self) -> (result: Matrix<T, COLS, ROWS>)
        ensures
            self.is_transposed_by(result),
    {
        let mut result: Matrix<T, COLS, ROWS> = Matrix::zeroes();
        for i in 0..ROWS
            invariant
                forall|r: int, c: int|
                    0 <= r < i && 0 <= c < COLS ==> #[trigger] result.at(c, r) == self.at(r, c),
        {
            for j in 0..COLS
                invariant
                    0 <= i < ROWS,
                    forall|r: int, c: int|
                        0 <= r < i && 0 <= c < COLS ==> #[trigger] result.at(c, r) == self.at(r, c),
                    forall|c: int| 0 <= c < j ==> #[trigger] result.at(c, i as int) == self.at(i as int, c),
            {
                result.set(j, i, self.0[i][j]);
            }
        }
        result
    }
}

} // verus!
