//! Dense matrices whose row and column counts are part of their type.
//!
//! Elements are values of a type that implements [`element::Element`]: each
//! stands for a mathematical integer, and every contract of this crate is
//! stated over those integers.

pub mod algebra;
pub mod converters;
pub mod doolittle;
pub mod element;
pub mod iter;
pub mod laws;
pub mod ops;

use crate::algebra::{constant, has_shape};
use crate::element::Element;
use vstd::prelude::*;

verus! {

/// A matrix of `ROWS` rows and `COLS` columns, stored row by row.
#[derive(Debug, Clone, Copy)]
pub struct Matrix<T, const ROWS: usize, const COLS: usize>(pub [[T; COLS]; ROWS]);

impl<T, const ROWS: usize, const COLS: usize> Matrix<T, ROWS, COLS> {
    /// The element in row `row` and column `col`.
    #[verifier::inline]
    pub open spec fn at(self, row: int, col: int) -> T {
        self.0[row][col]
    }

    /// The number of rows and the number of columns.
    #[inline]
    pub fn dim(&self) -> (d: (usize, usize))
        ensures
            d == (ROWS, COLS),
    {
        (ROWS, COLS)
    }

    /// Whether the matrix has exactly one row.
    #[inline]
    pub fn is_row_vector(&self) -> (b: bool)
        ensures
            b == (ROWS == 1),
    {
        ROWS == 1
    }

    /// Whether the matrix has exactly one column.
    #[inline]
    pub fn is_column_vector(&self) -> (b: bool)
        ensures
            b == (COLS == 1),
    {
        COLS == 1
    }

    /// Replaces the element in row `row` and column `col` by `value` and
    /// leaves every other element as it was.
    pub fn set(&mut self, row: usize, col: usize, value: T)
        requires
            row < ROWS,
            col < COLS,
        ensures
            final(self).at(row as int, col as int) == value,
            forall|r: int, c: int|
                0 <= r < ROWS && 0 <= c < COLS && !(r == row && c == col) ==> #[trigger] final(
                    self
                ).at(r, c) == old(self).at(r, c),
    {
        self.0[row][col] = value;
    }
}

impl<T: Default + Copy, const ROWS: usize, const COLS: usize> Matrix<T, ROWS, COLS> {
    /// The matrix whose every element is the default value of `T`.
    pub fn default() -> (m: Self)
        ensures
            forall|i: int, j: int|
                0 <= i < ROWS && 0 <= j < COLS ==> call_ensures(
                    T::default,
                    (),
                    #[trigger] m.at(i, j),
                ),
    {
        Self([[T::default(); COLS]; ROWS])
    }
}

impl<T: Element, const ROWS: usize, const COLS: usize> View for Matrix<T, ROWS, COLS> {
    type V = Seq<Seq<int>>;

    /// The integers that the elements stand for, row by row.
    open spec fn view(&self) -> Seq<Seq<int>> {
        Seq::new(ROWS as nat, |i: int| Seq::new(COLS as nat, |j: int| self.at(i, j).val()))
    }
}

impl<T: Element, const ROWS: usize, const COLS: usize> Matrix<T, ROWS, COLS> {
    /// The view has `ROWS` rows of `COLS` entries, and each entry is the
    /// integer that the element in its place stands for.
    pub proof fn lemma_view_entries(self)
        ensures
            has_shape(self@, ROWS as nat, COLS as nat),
            forall|i: int, j: int|
                0 <= i < ROWS && 0 <= j < COLS ==> self@[i][j] == (#[trigger] self.at(i, j)).val(),
    {
    }

    /// Two matrices whose elements stand for the same integers are the same
    /// matrix.
    pub proof fn lemma_view_injective(a: Self, b: Self)
        requires
            a@ == b@,
        ensures
            a == b,
    {
        assert forall|i: int| 0 <= i < ROWS implies a.0[i] == b.0[i] by {
            assert forall|j: int| 0 <= j < COLS implies a.0[i][j] == b.0[i][j] by {
                assert(b@[i][j] == b.0[i][j].val());
                a.0[i][j].lemma_val_injective(b.0[i][j]);
            }
        }
        assert(a.0 =~= b.0);
    }

    /// The matrix whose every element is the additive identity.
    pub fn zeroes() -> (m: Self)
        ensures
            m@ == constant(ROWS as nat, COLS as nat, 0),
    {
        let m = Self([[T::zero(); COLS]; ROWS]);
        assert(m@ =~~= constant(ROWS as nat, COLS as nat, 0));
        m
    }
}

impl<T: Element, const DIM: usize> Matrix<T, DIM, DIM> {
    /// The square matrix whose every element is the multiplicative identity.
    pub fn ones() -> (m: Self)
        ensures
            m@ == constant(DIM as nat, DIM as nat, 1),
    {
        let m = Self([[T::one(); DIM]; DIM]);
        assert(m@ =~~= constant(DIM as nat, DIM as nat, 1));
        m
    }
}

} // verus!
