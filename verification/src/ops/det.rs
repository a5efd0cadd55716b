//! Determinants: closed forms up to dimension three, the LU decomposition
//! above.

use crate::doolittle::{
    diagonal_product, lemma_lower_diagonal_product, lower_factor, lu_determinant,
    lu_determinant_fits, pivot_product_fits, upper_factor,
};
use crate::element::Element;
use crate::ops::lu::LUDecomposition;
use crate::Matrix;
use vstd::prelude::*;

verus! {

/// The determinant of a 2 by 2 matrix.
pub open spec fn determinant2(a: Seq<Seq<int>>) -> int {
    a[0][0] * a[1][1] - a[0][1] * a[1][0]
}

/// The determinant of a 3 by 3 matrix, by the rule of Sarrus.
pub open spec fn determinant3(a: Seq<Seq<int>>) -> int {
    a[0][0] * a[1][1] * a[2][2] + a[0][1] * a[1][2] * a[2][0] + a[0][2] * a[1][0] * a[2][1]
        - a[0][2] * a[1][1] * a[2][0] - a[0][1] * a[1][0] * a[2][2] - a[0][0] * a[1][2] * a[2][1]
}

/// The determinant of a matrix of dimension at most three by its closed
/// form; the determinant of the empty matrix is one.
pub open spec fn closed_form(a: Seq<Seq<int>>, dim: nat) -> int {
    if dim == 0 {
        1
    } else if dim == 1 {
        a[0][0]
    } else if dim == 2 {
        determinant2(a)
    } else {
        determinant3(a)
    }
}

/// The determinant of the `dim` by `dim` matrix `a` as `Matrix::det`
/// computes it: by closed form up to dimension three, from the
/// factorisation above.
pub open spec fn determinant(a: Seq<Seq<int>>, dim: nat) -> int {
    if dim <= 3 {
        closed_form(a, dim)
    } else {
        lu_determinant(a, dim)
    }
}

/// Whether `T` can hold every product and partial sum of the closed form
/// for a 2 by 2 matrix.
pub open spec fn determinant2_fits<T: Element>(a: Seq<Seq<int>>) -> bool {
    &&& T::fits(a[0][0] * a[1][1])
    &&& T::fits(a[0][1] * a[1][0])
    &&& T::fits(determinant2(a))
}

/// Whether `T` can hold the product of `x`, `y` and `z`, and that of `x`
/// and `y` before it.
pub open spec fn triple_fits<T: Element>(x: int, y: int, z: int) -> bool {
    T::fits(x * y) && T::fits(x * y * z)
}

/// Whether `T` can hold every product and partial sum of the closed form
/// for a 3 by 3 matrix, taken from left to right.
pub open spec fn determinant3_fits<T: Element>(a: Seq<Seq<int>>) -> bool {
    let aei = a[0][0] * a[1][1] * a[2][2];
    let bfg = a[0][1] * a[1][2] * a[2][0];
    let cdh = a[0][2] * a[1][0] * a[2][1];
    let ceg = a[0][2] * a[1][1] * a[2][0];
    let bdi = a[0][1] * a[1][0] * a[2][2];
    let afh = a[0][0] * a[1][2] * a[2][1];
    &&& triple_fits::<T>(a[0][0], a[1][1], a[2][2])
    &&& triple_fits::<T>(a[0][1], a[1][2], a[2][0])
    &&& triple_fits::<T>(a[0][2], a[1][0], a[2][1])
    &&& triple_fits::<T>(a[0][2], a[1][1], a[2][0])
    &&& triple_fits::<T>(a[0][1], a[1][0], a[2][2])
    &&& triple_fits::<T>(a[0][0], a[1][2], a[2][1])
    &&& T::fits(aei + bfg)
    &&& T::fits(aei + bfg + cdh)
    &&& T::fits(aei + bfg + cdh - ceg)
    &&& T::fits(aei + bfg + cdh - ceg - bdi)
    &&& T::fits(aei + bfg + cdh - ceg - bdi - afh)
}

/// Whether `Matrix::det` can compute the determinant of the `dim` by `dim`
/// matrix `a` in `T`.
pub open spec fn determinant_fits<T: Element>(a: Seq<Seq<int>>, dim: nat) -> bool {
    if dim <= 1 {
        true
    } else if dim == 2 {
        determinant2_fits::<T>(a)
    } else if dim == 3 {
        determinant3_fits::<T>(a)
    } else {
        lu_determinant_fits::<T>(a, dim)
    }
}

/// The determinant of the empty matrix: the multiplicative identity.
#[inline(always)]
pub fn det0<T: Element>(_mat: &Matrix<T, 0, 0>) -> (d: T)
    ensures
        d.val() == 1,
{
    T::one()
}

/// The determinant of a 1 by 1 matrix: its only element.
#[inline(always)]
pub fn det1<T: Element>(mat: &Matrix<T, 1, 1>) -> (d: T)
    ensures
        d == mat.at(0, 0),
{
    mat.0[0][0]
}

/// The determinant of a 2 by 2 matrix.
#[inline(always)]
pub fn det2<T: Element>(mat: &Matrix<T, 2, 2>) -> (d: T)
    requires
        determinant2_fits::<T>(mat@),
    ensures
        d.val() == determinant2(mat@),
{
    proof {
        mat.lemma_view_entries();
    }
    mat.0[0][0].times(mat.0[1][1]).minus(mat.0[0][1].times(mat.0[1][0]))
}

/// The determinant of a 3 by 3 matrix.
#[inline(always)]
pub fn det3<T: Element>(mat: &Matrix<T, 3, 3>) -> (det: T)
    requires
        determinant3_fits::<T>(mat@),
    ensures
        det.val() == determinant3(mat@),
{
    proof {
        mat.lemma_view_entries();
    }
    let a = mat.0[0][0];
    let b = mat.0[0][1];
    let c = mat.0[0][2];
    let d = mat.0[1][0];
    let e = mat.0[1][1];
    let f = mat.0[1][2];
    let g = mat.0[2][0];
    let h = mat.0[2][1];
    let i = mat.0[2][2];
    let aei = a.times(e).times(i);
    let bfg = b.times(f).times(g);
    let cdh = c.times(d).times(h);
    let ceg = c.times(e).times(g);
    let bdi = b.times(d).times(i);
    let afh = a.times(f).times(h);
    aei.plus(bfg).plus(cdh).minus(ceg).minus(bdi).minus(afh)
}

impl<T: Element, const DIM: usize> Matrix<T, DIM, DIM> {
    /// The determinant from the LU decomposition: the sign that the count of
    /// row exchanges gives, times the product of the lower factor's
    /// diagonal, times the product of the upper factor's diagonal.
    pub fn det_via_lu(&self) -> (d: T)
        requires
            lu_determinant_fits::<T>(self@, DIM as nat),
        ensures
            d.val() == lu_determinant(self@, DIM as nat),
    {
        let LUDecomposition { lower, upper, swaps } = self.lu();
        let mut lower_det = T::one();
        let mut upper_det = T::one();
        proof {
            lower_det.lemma_val_fits();
        }
        for i in 0..DIM
            invariant
                lu_determinant_fits::<T>(self@, DIM as nat),
                lower@ == lower_factor(self@, DIM as nat),
                upper@ == upper_factor(self@, DIM as nat),
                T::fits(1),
                lower_det.val() == diagonal_product(lower@, i as nat),
                upper_det.val() == diagonal_product(upper@, i as nat),
        {
            proof {
                lower.lemma_view_entries();
                upper.lemma_view_entries();
                lemma_lower_diagonal_product(self@, DIM as nat, (i + 1) as nat);
                assert(pivot_product_fits::<T>(self@, DIM as nat, i as int));
            }
            lower_det = lower_det.times(lower.0[i][i]);
            upper_det = upper_det.times(upper.0[i][i]);
        }
        proof {
            lemma_lower_diagonal_product(self@, DIM as nat, DIM as nat);
            upper_det.lemma_val_fits();
        }
        let signal = if swaps % 2 == 0 {
            T::one()
        } else {
            T::one().negated()
        };
        signal.times(lower_det).times(upper_det)
    }

    /// The determinant: by closed form up to dimension three, from the LU
    /// decomposition above.
    #[inline(always)]
    pub fn det(&self) -> (d: T)
        requires
            determinant_fits::<T>(self@, DIM as nat),
        ensures
            d.val() == determinant(self@, DIM as nat),
    {
        proof {
            self.lemma_view_entries();
        }
        match DIM {
            0usize => {
                let small: Matrix<T, 0, 0> = Matrix([]);
                det0(&small)
            },
            1usize => {
                let small: Matrix<T, 1, 1> = Matrix([[self.0[0][0]]]);
                det1(&small)
            },
            2usize => {
                let small: Matrix<T, 2, 2> = Matrix(
                    [[self.0[0][0], self.0[0][1]], [self.0[1][0], self.0[1][1]]],
                );
                proof {
                    small.lemma_view_entries();
                }
                det2(&small)
            },
            3usize => {
                let small: Matrix<T, 3, 3> = Matrix(
                    [
                        [self.0[0][0], self.0[0][1], self.0[0][2]],
                        [self.0[1][0], self.0[1][1], self.0[1][2]],
                        [self.0[2][0], self.0[2][1], self.0[2][2]],
                    ],
                );
                proof {
                    small.lemma_view_entries();
                }
                det3(&small)
            },
            _ => self.det_via_lu(),
        }
    }
}

} // verus!
