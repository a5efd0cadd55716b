//! Indexing by row, and equality with matrices and with nested arrays.

use crate::Matrix;
use std::ops::{Index, IndexMut};
use vstd::prelude::*;
use vstd::std_specs::cmp::{PartialEqSpec, PartialEqSpecImpl};

verus! {

impl<T, const ROWS: usize, const COLS: usize> vstd::std_specs::core::IndexSpecImpl<usize> for Matrix<T, ROWS, COLS> {
    /// A row can be taken only if it exists.
    open spec fn index_req(&self, index: &usize) -> bool {
        *index < ROWS
    }
}

impl<T, const ROWS: usize, const COLS: usize> Index<usize> for Matrix<T, ROWS, COLS> {
    type Output = [T; COLS];

    /// Row `index` of the matrix.
    fn index(&self, index: usize) -> (row: &[T; COLS])
        ensures
            *row == self.0[index as int],
    {
        &self.0[index]
    }
}

impl<T, const ROWS: usize, const COLS: usize> IndexMut<usize> for Matrix<T, ROWS, COLS> {
    /// Row `index` of the matrix, to be written to.
    fn index_mut(&mut self, index: usize) -> (row: &mut [T; COLS])
        requires
            index < ROWS,
        ensures
            *row == old(self).0[index as int],
            final(self).0@ == old(self).0@.update(index as int, *final(row)),
    {
        &mut self.0[index]
    }
}

impl<T: PartialEq, const ROWS: usize, const COLS: usize> PartialEqSpecImpl<[[T; COLS]; ROWS]> for Matrix<T, ROWS, COLS> {
    open spec fn obeys_eq_spec() -> bool {
        T::obeys_eq_spec()
    }

    /// Every element equals the one in the same place of `raw`.
    open spec fn eq_spec(&self, raw: &[[T; COLS]; ROWS]) -> bool {
        forall|i: int, j: int|
            0 <= i < ROWS && 0 <= j < COLS ==> (#[trigger] self.at(i, j)).eq_spec(&raw[i][j])
    }
}

impl<T: PartialEq, const ROWS: usize, const COLS: usize> PartialEq<[[T; COLS]; ROWS]> for Matrix<T, ROWS, COLS> {
    /// Compares the elements pairwise, row by row.
    fn eq(&self, raw: &[[T; COLS]; ROWS]) -> (b: bool) {
        for row in 0..ROWS
            invariant
                forall|i: int, j: int|
                    0 <= i < row && 0 <= j < COLS && T::obeys_eq_spec() ==> (#[trigger] self.at(
                        i,
                        j,
                    )).eq_spec(&raw[i][j]),
        {
            for col in 0..COLS
                invariant
                    0 <= row < ROWS,
                    forall|i: int, j: int|
                        0 <= i < row && 0 <= j < COLS && T::obeys_eq_spec() ==> (
                        #[trigger] self.at(i, j)).eq_spec(&raw[i][j]),
                    forall|j: int|
                        0 <= j < col && T::obeys_eq_spec() ==> (#[trigger] self.at(
                            row as int,
                            j,
                        )).eq_spec(&raw[row as int][j]),
            {
                if self.0[row][col] != raw[row][col] {
                    return false;
                }
            }
        }
        true
    }
}

impl<T: PartialEq, const ROWS: usize, const COLS: usize> PartialEqSpecImpl for Matrix<T, ROWS, COLS> {
    open spec fn obeys_eq_spec() -> bool {
        T::obeys_eq_spec()
    }

    /// Every element equals the one in the same place of `other`.
    open spec fn eq_spec(&self, other: &Self) -> bool {
        forall|i: int, j: int|
            0 <= i < ROWS && 0 <= j < COLS ==> (#[trigger] self.at(i, j)).eq_spec(&other.at(i, j))
    }
}

impl<T: PartialEq, const ROWS: usize, const COLS: usize> PartialEq for Matrix<T, ROWS, COLS> {
    /// Compares the elements pairwise, row by row.
    fn eq(&self, other: &Self) -> (b: bool) {
        self == &other.0
    }
}

} // verus!
