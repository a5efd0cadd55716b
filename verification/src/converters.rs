//! Conversion from nested arrays.

use crate::Matrix;
use vstd::prelude::*;
use vstd::std_specs::convert::FromSpecImpl;

verus! {

impl<T, const ROWS: usize, const COLS: usize> FromSpecImpl<[[T; COLS]; ROWS]> for Matrix<T, ROWS, COLS> {
    open spec fn obeys_from_spec() -> bool {
        true
    }

    open spec fn from_spec(value: [[T; COLS]; ROWS]) -> Self {
        Matrix(value)
    }
}

impl<T, const ROWS: usize, const COLS: usize> From<[[T; COLS]; ROWS]> for Matrix<T, ROWS, COLS> {
    /// The matrix whose rows are the rows of `value`.
    fn from(value: [[T; COLS]; ROWS]) -> (m: Self) {
        Self(value)
    }
}

} // verus!
