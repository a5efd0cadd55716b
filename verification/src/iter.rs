//! Walking the elements of a matrix row by row.

use crate::Matrix;
use vstd::arithmetic::div_mod::lemma_fundamental_div_mod_converse;
use vstd::prelude::*;

verus! {

/// A walk over the elements of a matrix in row-major order: row 0 from left
/// to right, then row 1, and so on.
pub struct MatrixIterator<'a, T, const ROWS: usize, const COLS: usize> {
    matrix: &'a Matrix<T, ROWS, COLS>,
    row: usize,
    col: usize,
}

impl<'a, T, const ROWS: usize, const COLS: usize> MatrixIterator<'a, T, ROWS, COLS> {
    #[verifier::type_invariant]
    spec fn well_formed(self) -> bool {
        &&& self.row <= ROWS
        &&& self.row < ROWS ==> self.col < COLS
        &&& self.row == ROWS ==> self.col == 0
    }

    /// The matrix that is walked.
    pub closed spec fn matrix(self) -> Matrix<T, ROWS, COLS> {
        *self.matrix
    }

    /// How many elements the walk has handed out.
    pub closed spec fn yielded(self) -> int {
        self.row * COLS + self.col
    }

    /// The next element with its row and its column, or `None` once every
    /// element has been handed out.
    pub fn next(&mut self) -> (item: Option<(usize, usize, &'a T)>)
        ensures
            final(self).matrix() == old(self).matrix(),
            0 <= old(self).yielded() <= ROWS * COLS,
            old(self).yielded() < ROWS * COLS ==> {
                let k = old(self).yielded();
                &&& item matches Some((row, col, element))
                &&& row == k / (COLS as int)
                &&& col == k % (COLS as int)
                &&& *element == old(self).matrix().at(row as int, col as int)
                &&& final(self).yielded() == k + 1
            },
            old(self).yielded() == ROWS * COLS ==> item is None && final(self).yielded() == old(
                self,
            ).yielded(),
    {
        proof {
            use_type_invariant(&*self);
            lemma_position(self.row as int, self.col as int, ROWS as int, COLS as int);
        }
        if self.row == ROWS {
            return None;
        }
        let row = self.row;
        let col = self.col;
        let matrix: &'a Matrix<T, ROWS, COLS> = self.matrix;
        let element: &'a T = &matrix.0[row][col];
        if col + 1 == COLS {
            self.col = 0;
            self.row = row + 1;
        } else {
            self.col = col + 1;
        }
        Some((row, col, element))
    }
}

impl<T, const ROWS: usize, const COLS: usize> Matrix<T, ROWS, COLS> {
    /// A walk over the elements in row-major order, starting at the first.
    pub fn iter(&self) -> (walk: MatrixIterator<'_, T, ROWS, COLS>)
        ensures
            walk.matrix() == *self,
            walk.yielded() == 0,
    {
        if COLS == 0 {
            proof {
                lemma_position(ROWS as int, 0, ROWS as int, 0);
            }
            MatrixIterator { matrix: self, row: ROWS, col: 0 }
        } else {
            MatrixIterator { matrix: self, row: 0, col: 0 }
        }
    }
}

/// Where the element with a given row-major number stands: with `col` below
/// `cols`, the number `row * cols + col` has quotient `row` and remainder
/// `col` by `cols`, and is below `rows * cols` exactly when `row` is below
/// `rows`.
proof fn lemma_position(row: int, col: int, rows: int, cols: int)
    requires
        0 <= row <= rows,
        0 <= col,
        0 <= cols,
        row < rows ==> col < cols,
        row == rows ==> col == 0,
    ensures
        0 <= row * cols + col <= rows * cols,
        row < rows ==> row * cols + col < rows * cols,
        row < rows ==> (row * cols + col) / cols == row && (row * cols + col) % cols == col,
        row < rows && col + 1 < cols ==> row * cols + (col + 1) == row * cols + col + 1,
        row < rows && col + 1 == cols ==> (row + 1) * cols + 0 == row * cols + col + 1,
{
    assert(0 <= rows * cols) by (nonlinear_arith)
        requires
            0 <= rows,
            0 <= cols,
    ;
    if row < rows {
        assert(row * cols + col < rows * cols) by (nonlinear_arith)
            requires
                0 <= row < rows,
                0 <= col < cols,
        ;
        assert(0 <= row * cols + col) by (nonlinear_arith)
            requires
                0 <= row,
                0 <= col < cols,
        ;
        lemma_fundamental_div_mod_converse(row * cols + col, cols, row, col);
        assert((row + 1) * cols == row * cols + cols) by (nonlinear_arith);
    }
}

} // verus!
