//! Matrices of integers as nested sequences, and the sums and products that
//! the contracts of this crate are stated over.

use crate::element::Element;
use vstd::prelude::*;

verus! {

/// Whether `m` has `rows` rows of `cols` entries each.
pub open spec fn has_shape(m: Seq<Seq<int>>, rows: nat, cols: nat) -> bool {
    &&& m.len() == rows
    &&& forall|i: int| 0 <= i < rows ==> (#[trigger] m[i]).len() == cols
}

/// The `rows` by `cols` matrix whose every entry is `v`.
pub open spec fn constant(rows: nat, cols: nat, v: int) -> Seq<Seq<int>> {
    Seq::new(rows, |i: int| Seq::new(cols, |j: int| v))
}

/// The identity matrix of dimension `dim`.
pub open spec fn unit(dim: nat) -> Seq<Seq<int>> {
    Seq::new(dim, |i: int| Seq::new(dim, |j: int| if i == j { 1int } else { 0int }))
}

/// Whether the `dim` by `dim` matrix `m` has ones on its diagonal and zeros
/// above it.
pub open spec fn is_unit_lower_triangular(m: Seq<Seq<int>>, dim: nat) -> bool {
    forall|r: int, c: int|
        0 <= r < dim && 0 <= c < dim && r <= c ==> #[trigger] m[r][c] == (if r == c {
            1int
        } else {
            0int
        })
}

/// Whether the `dim` by `dim` matrix `m` has zeros below its diagonal.
pub open spec fn is_upper_triangular(m: Seq<Seq<int>>, dim: nat) -> bool {
    forall|r: int, c: int| 0 <= c < r < dim ==> #[trigger] m[r][c] == 0
}

/// Whether `T` can hold every entry of the `rows` by `cols` matrix `m`.
pub open spec fn entries_fit<T: Element>(m: Seq<Seq<int>>, rows: nat, cols: nat) -> bool {
    forall|i: int, j: int| 0 <= i < rows && 0 <= j < cols ==> T::fits(#[trigger] m[i][j])
}

/// The product of entry `k` of row `i` of `a` and entry `k` of column `j` of `b`.
pub open spec fn term(a: Seq<Seq<int>>, b: Seq<Seq<int>>, i: int, j: int, k: int) -> int {
    a[i][k] * b[k][j]
}

/// The sum of the first `n` terms of row `i` of `a` times column `j` of `b`,
/// taken in increasing order.
pub open spec fn dot(a: Seq<Seq<int>>, b: Seq<Seq<int>>, i: int, j: int, n: nat) -> int
    decreases n,
{
    if n == 0 {
        0
    } else {
        dot(a, b, i, j, (n - 1) as nat) + term(a, b, i, j, n - 1)
    }
}

/// The matrix product of `a` and `b`, where `b` has `cols` columns.
pub open spec fn product(a: Seq<Seq<int>>, b: Seq<Seq<int>>, cols: nat) -> Seq<Seq<int>> {
    Seq::new(a.len(), |i: int| Seq::new(cols, |j: int| dot(a, b, i, j, b.len())))
}

/// Whether `T` can hold term `k` of row `i` times column `j`, and the sum up
/// to and including that term.
pub open spec fn step_fits<T: Element>(
    a: Seq<Seq<int>>,
    b: Seq<Seq<int>>,
    i: int,
    j: int,
    k: int,
) -> bool {
    &&& T::fits(term(a, b, i, j, k))
    &&& T::fits(dot(a, b, i, j, (k + 1) as nat))
}

/// Whether `T` can hold every term and every partial sum of the first `n`
/// terms of row `i` times column `j`.
pub open spec fn dot_fits<T: Element>(
    a: Seq<Seq<int>>,
    b: Seq<Seq<int>>,
    i: int,
    j: int,
    n: nat,
) -> bool {
    forall|k: int| 0 <= k < n ==> #[trigger] step_fits::<T>(a, b, i, j, k)
}

/// Whether `T` can hold every term and every partial sum of the product of
/// `a` and `b`, where `b` has `cols` columns.
pub open spec fn product_fits<T: Element>(a: Seq<Seq<int>>, b: Seq<Seq<int>>, cols: nat) -> bool {
    forall|i: int, j: int|
        0 <= i < a.len() && 0 <= j < cols ==> #[trigger] dot_fits::<T>(a, b, i, j, b.len())
}

} // verus!
