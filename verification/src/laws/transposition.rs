//! Transposing twice.

use crate::element::Element;
use crate::Matrix;
use vstd::prelude::*;

verus! {

/// Transposing twice gives the matrix back: a matrix that is `m` transposed
/// and then transposed again is `m`.
pub proof fn law_transpose_involution<T: Element, const ROWS: usize, const COLS: usize>(
    m: Matrix<T, ROWS, COLS>,
    once: Matrix<T, COLS, ROWS>,
    twice: Matrix<T, ROWS, COLS>,
)
    requires
        m.is_transposed_by(once),
        once.is_transposed_by(twice),
    ensures
        twice == m,
{
    assert forall|i: int| 0 <= i < ROWS implies twice.0[i] == m.0[i] by {
        assert forall|j: int| 0 <= j < COLS implies twice.0[i][j] == m.0[i][j] by {}
    }
    assert(twice.0 =~= m.0);
}

} // verus!
