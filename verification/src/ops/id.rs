//! The identity matrix.

use crate::algebra::unit;
use crate::element::Element;
use crate::Matrix;
use vstd::prelude::*;

verus! {

impl<T: Element, const DIM: usize> Matrix<T, DIM, DIM> {
    /// The square matrix with the multiplicative identity on the main
    /// diagonal and the additive identity everywhere else.
    pub fn identity() -> (m: Self)
        ensures
            m@ == unit(DIM as nat),
    {
        let mut matrix: Matrix<T, DIM, DIM> = Self::zeroes();
        proof {
            matrix.lemma_view_entries();
        }
        for row in 0..DIM
            invariant
                forall|r: int, c: int|
                    0 <= r < DIM && 0 <= c < DIM ==> (#[trigger] matrix.at(r, c)).val() == (if r
                        < row && r == c {
                        1int
                    } else {
                        0int
                    }),
        {
            matrix.set(row, row, T::one());
        }
        assert(matrix@ =~~= unit(DIM as nat));
        matrix
    }
}

} // verus!
