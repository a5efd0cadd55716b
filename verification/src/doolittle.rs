//! The Doolittle factorisation of a square matrix of integers, entry by
//! entry: a lower factor with ones on its diagonal and an upper factor, each
//! entry computed from the entries above it and to its left.

use crate::element::{quot, Element};
use vstd::prelude::*;

verus! {

/// The sum, over the first `n` indices `j` in increasing order, of the lower
/// factor's entry `(r, j)` times the upper factor's entry `(j, c)`.
pub open spec fn lu_sum(a: Seq<Seq<int>>, r: int, c: int, n: nat) -> int
    decreases n, 0int,
{
    if n == 0 {
        0
    } else {
        lu_sum(a, r, c, (n - 1) as nat) + lower_entry(a, r, n - 1) * upper_entry(a, n - 1, c)
    }
}

/// Entry `(r, c)` of the upper factor of `a`: on and above the diagonal, the
/// entry of `a` less the sum of the products before it; below, zero.
pub open spec fn upper_entry(a: Seq<Seq<int>>, r: int, c: int) -> int
    decreases r, 1int,
{
    if 0 <= r <= c {
        a[r][c] - lu_sum(a, r, c, r as nat)
    } else {
        0
    }
}

/// Entry `(r, c)` of the lower factor of `a`: one on the diagonal; below it,
/// the entry of `a` less the sum of the products before it, divided by the
/// pivot of its column; above it, zero.
pub open spec fn lower_entry(a: Seq<Seq<int>>, r: int, c: int) -> int
    decreases c, 2int,
{
    if r == c {
        1
    } else if 0 <= c < r {
        quot(a[r][c] - lu_sum(a, r, c, c as nat), upper_entry(a, c, c))
    } else {
        0
    }
}

/// The lower factor of the `dim` by `dim` matrix `a`.
pub open spec fn lower_factor(a: Seq<Seq<int>>, dim: nat) -> Seq<Seq<int>> {
    Seq::new(dim, |r: int| Seq::new(dim, |c: int| lower_entry(a, r, c)))
}

/// The upper factor of the `dim` by `dim` matrix `a`.
pub open spec fn upper_factor(a: Seq<Seq<int>>, dim: nat) -> Seq<Seq<int>> {
    Seq::new(dim, |r: int| Seq::new(dim, |c: int| upper_entry(a, r, c)))
}

/// The smaller of two indices.
pub open spec fn lesser(r: int, c: int) -> int {
    if r <= c {
        r
    } else {
        c
    }
}

/// Whether `T` can hold product `j` of the sum for entry `(r, c)`, and the
/// sum up to and including that product.
pub open spec fn lu_term_fits<T: Element>(a: Seq<Seq<int>>, r: int, c: int, j: int) -> bool {
    &&& T::fits(lower_entry(a, r, j) * upper_entry(a, j, c))
    &&& T::fits(lu_sum(a, r, c, (j + 1) as nat))
}

/// Whether the factorisation can compute its entry at `(r, c)` in `T`: every
/// product and partial sum fits, the difference fits, and below the
/// diagonal the pivot is not zero and the quotient fits.
pub open spec fn lu_entry_fits<T: Element>(a: Seq<Seq<int>>, r: int, c: int) -> bool {
    &&& forall|j: int| 0 <= j < lesser(r, c) ==> #[trigger] lu_term_fits::<T>(a, r, c, j)
    &&& T::fits(a[r][c] - lu_sum(a, r, c, lesser(r, c) as nat))
    &&& c < r ==> upper_entry(a, c, c) != 0 && T::fits(lower_entry(a, r, c))
}

/// Whether the factorisation of the `dim` by `dim` matrix `a` can be
/// computed in `T`: no pivot that is divided by is zero, and `T` can hold
/// every intermediate value.
pub open spec fn lu_fits<T: Element>(a: Seq<Seq<int>>, dim: nat) -> bool {
    forall|r: int, c: int| 0 <= r < dim && 0 <= c < dim ==> #[trigger] lu_entry_fits::<T>(a, r, c)
}

/// Whether the division that gives the lower factor's entry `(r, c)`, below
/// the diagonal, has a pivot other than zero and leaves no remainder.
pub open spec fn divides_exactly(a: Seq<Seq<int>>, r: int, c: int) -> bool {
    &&& upper_entry(a, c, c) != 0
    &&& lower_entry(a, r, c) * upper_entry(a, c, c) == a[r][c] - lu_sum(a, r, c, c as nat)
}

/// Whether every division in the factorisation of the `dim` by `dim` matrix
/// `a` has a pivot other than zero and leaves no remainder.
pub open spec fn lu_exact(a: Seq<Seq<int>>, dim: nat) -> bool {
    forall|r: int, c: int| 0 <= c < r < dim ==> #[trigger] divides_exactly(a, r, c)
}

/// The product of the first `n` diagonal entries of `m`, taken in
/// increasing order and starting from one.
pub open spec fn diagonal_product(m: Seq<Seq<int>>, n: nat) -> int
    decreases n,
{
    if n == 0 {
        1
    } else {
        diagonal_product(m, (n - 1) as nat) * m[n - 1][n - 1]
    }
}

/// The determinant of the `dim` by `dim` matrix `a` as its factorisation
/// gives it: the product of the diagonal of the lower factor times the
/// product of the diagonal of the upper factor. No rows are exchanged, so
/// the sign is positive.
pub open spec fn lu_determinant(a: Seq<Seq<int>>, dim: nat) -> int {
    diagonal_product(lower_factor(a, dim), dim) * diagonal_product(upper_factor(a, dim), dim)
}

/// Whether `T` can hold the product of the first `n + 1` pivots of `a`.
pub open spec fn pivot_product_fits<T: Element>(a: Seq<Seq<int>>, dim: nat, n: int) -> bool {
    T::fits(diagonal_product(upper_factor(a, dim), (n + 1) as nat))
}

/// Whether the determinant of the `dim` by `dim` matrix `a` can be computed
/// in `T` from its factorisation: the factorisation can be, and `T` can hold
/// every partial product of the pivots.
pub open spec fn lu_determinant_fits<T: Element>(a: Seq<Seq<int>>, dim: nat) -> bool {
    &&& lu_fits::<T>(a, dim)
    &&& forall|n: int| 0 <= n < dim ==> #[trigger] pivot_product_fits::<T>(a, dim, n)
}

/// The diagonal of the lower factor holds ones only, so every product of
/// its entries is one.
pub proof fn lemma_lower_diagonal_product(a: Seq<Seq<int>>, dim: nat, n: nat)
    requires
        n <= dim,
    ensures
        diagonal_product(lower_factor(a, dim), n) == 1,
    decreases n,
{
    if n > 0 {
        lemma_lower_diagonal_product(a, dim, (n - 1) as nat);
    }
}

} // verus!
