//! LU decomposition by the Doolittle method.

use crate::algebra::{is_unit_lower_triangular, is_upper_triangular};
use crate::doolittle::{
    lower_entry, lower_factor, lu_entry_fits, lu_fits, lu_sum, lu_term_fits, upper_entry,
    upper_factor,
};
use crate::element::Element;
use crate::Matrix;
use vstd::prelude::*;

verus! {

/// A square matrix factored into a lower triangular matrix with ones on its
/// diagonal and an upper triangular matrix.
pub struct LUDecomposition<T, const DIM: usize> {
    pub lower: Matrix<T, DIM, DIM>,
    pub upper: Matrix<T, DIM, DIM>,
    /// How many times two rows were exchanged.
    pub swaps: u32,
}

/// Whether `upper` holds the upper factor of `a` in the rows before `row`
/// and, in row `row`, in the columns before `col`, and zero everywhere else.
spec fn upper_filled_to<T: Element, const DIM: usize>(
    a: Seq<Seq<int>>,
    upper: Matrix<T, DIM, DIM>,
    row: int,
    col: int,
) -> bool {
    forall|r: int, c: int|
        0 <= r < DIM && 0 <= c < DIM ==> (#[trigger] upper.at(r, c)).val() == (if r < row || (r
            == row && c < col) {
            upper_entry(a, r, c)
        } else {
            0
        })
}

/// Whether `lower` holds the lower factor of `a` in the columns before `col`
/// and, in column `col`, in the rows before `row`, and zero everywhere else.
spec fn lower_filled_to<T: Element, const DIM: usize>(
    a: Seq<Seq<int>>,
    lower: Matrix<T, DIM, DIM>,
    col: int,
    row: int,
) -> bool {
    forall|r: int, c: int|
        0 <= r < DIM && 0 <= c < DIM ==> (#[trigger] lower.at(r, c)).val() == (if c < col || (c
            == col && r < row) {
            lower_entry(a, r, c)
        } else {
            0
        })
}

impl<T: Element, const DIM: usize> Matrix<T, DIM, DIM> {
    /// The sum, over the indices `j` below `n` in increasing order and
    /// starting from zero, of `lower(r, j) * upper(j, c)`, where the two
    /// matrices hold the factors of `self` as far as the sum reads them.
    fn partial_sum(&self, lower: &Self, upper: &Self, r: usize, c: usize, n: usize) -> (sum: T)
        requires
            r < DIM,
            c < DIM,
            n <= r,
            n <= c,
            lu_entry_fits::<T>(self@, r as int, c as int),
            forall|j: int|
                0 <= j < n ==> (#[trigger] lower.at(r as int, j)).val() == lower_entry(
                    self@,
                    r as int,
                    j,
                ),
            forall|j: int|
                0 <= j < n ==> (#[trigger] upper.at(j, c as int)).val() == upper_entry(
                    self@,
                    j,
                    c as int,
                ),
        ensures
            sum.val() == lu_sum(self@, r as int, c as int, n as nat),
    {
        let mut sum = T::zero();
        for j in 0..n
            invariant
                r < DIM,
                c < DIM,
                n <= r,
                n <= c,
                lu_entry_fits::<T>(self@, r as int, c as int),
                forall|j: int|
                    0 <= j < n ==> (#[trigger] lower.at(r as int, j)).val() == lower_entry(
                        self@,
                        r as int,
                        j,
                    ),
                forall|j: int|
                    0 <= j < n ==> (#[trigger] upper.at(j, c as int)).val() == upper_entry(
                        self@,
                        j,
                        c as int,
                    ),
                sum.val() == lu_sum(self@, r as int, c as int, j as nat),
        {
            assert(lu_term_fits::<T>(self@, r as int, c as int, j as int));
            sum = sum.plus(lower.0[r][j].times(upper.0[j][c]));
        }
        sum
    }

    /// Factors the matrix by the Doolittle method: row by row, the entries
    /// of the upper factor on and right of the diagonal, then the entries of
    /// the lower factor's column on and below it. Rows are never exchanged,
    /// so the count of exchanges is zero.
    pub fn lu(&self) -> (factors: LUDecomposition<T, DIM>)
        requires
            lu_fits::<T>(self@, DIM as nat),
        ensures
            factors.lower@ == lower_factor(self@, DIM as nat),
            factors.upper@ == upper_factor(self@, DIM as nat),
            is_unit_lower_triangular(factors.lower@, DIM as nat),
            is_upper_triangular(factors.upper@, DIM as nat),
            factors.swaps == 0,
    {
        let mut lower: Matrix<T, DIM, DIM> = Matrix::zeroes();
        let mut upper: Matrix<T, DIM, DIM> = Matrix::zeroes();
        let swaps: u32 = 0;
        proof {
            lower.lemma_view_entries();
            upper.lemma_view_entries();
        }
        for i in 0..DIM
            invariant
                lu_fits::<T>(self@, DIM as nat),
                upper_filled_to(self@, upper, i as int, 0),
                lower_filled_to(self@, lower, i as int, 0),
        {
            for k in i..DIM
                invariant
                    0 <= i < DIM,
                    lu_fits::<T>(self@, DIM as nat),
                    upper_filled_to(self@, upper, i as int, k as int),
                    lower_filled_to(self@, lower, i as int, 0),
            {
                proof {
                    self.lemma_view_entries();
                    assert(lu_entry_fits::<T>(self@, i as int, k as int));
                }
                let sum = self.partial_sum(&lower, &upper, i, k, i);
                upper.set(i, k, self.0[i][k].minus(sum));
            }
            for k in i..DIM
                invariant
                    0 <= i < DIM,
                    lu_fits::<T>(self@, DIM as nat),
                    upper_filled_to(self@, upper, i + 1, 0),
                    lower_filled_to(self@, lower, i as int, k as int),
            {
                if i == k {
                    lower.set(i, i, T::one());
                } else {
                    proof {
                        self.lemma_view_entries();
                        assert(lu_entry_fits::<T>(self@, k as int, i as int));
                    }
                    let sum = self.partial_sum(&lower, &upper, k, i, i);
                    lower.set(k, i, self.0[k][i].minus(sum).over(upper.0[i][i]));
                }
            }
        }
        assert(lower@ =~~= lower_factor(self@, DIM as nat));
        assert(upper@ =~~= upper_factor(self@, DIM as nat));
        LUDecomposition { lower, upper, swaps }
    }
}

} // verus!
