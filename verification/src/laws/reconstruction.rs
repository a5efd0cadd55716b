//! Multiplying the factors of a decomposition back together.

use crate::algebra::{dot, dot_fits, entries_fit, has_shape, product, product_fits, step_fits, term};
use crate::doolittle::{
    divides_exactly, lesser, lower_entry, lower_factor, lu_entry_fits, lu_exact, lu_fits, lu_sum,
    lu_term_fits, upper_entry, upper_factor,
};
use crate::element::Element;
use crate::Matrix;
use vstd::prelude::*;
use vstd::std_specs::ops::MulSpec;

verus! {

/// The first `n` terms of row `r` of the lower factor times column `c` of
/// the upper factor are the products that the factorisation sums.
proof fn lemma_factor_dot(a: Seq<Seq<int>>, dim: nat, r: int, c: int, n: nat)
    requires
        0 <= r < dim,
        0 <= c < dim,
        n <= dim,
    ensures
        dot(lower_factor(a, dim), upper_factor(a, dim), r, c, n) == lu_sum(a, r, c, n),
        n > 0 ==> term(lower_factor(a, dim), upper_factor(a, dim), r, c, n - 1) == lower_entry(
            a,
            r,
            n - 1,
        ) * upper_entry(a, n - 1, c),
    decreases n,
{
    if n > 0 {
        lemma_factor_dot(a, dim, r, c, (n - 1) as nat);
    }
}

/// Once the sum for entry `(r, c)` has passed the diagonal it is the entry
/// of `a`, and every product after the diagonal is zero.
proof fn lemma_sum_past_diagonal(a: Seq<Seq<int>>, r: int, c: int, n: nat)
    requires
        0 <= r,
        0 <= c,
        n > lesser(r, c),
        c < r ==> divides_exactly(a, r, c),
    ensures
        lu_sum(a, r, c, n) == a[r][c],
        n > lesser(r, c) + 1 ==> lower_entry(a, r, n - 1) * upper_entry(a, n - 1, c) == 0,
    decreases n,
{
    let j = n - 1;
    if j == lesser(r, c) {
        if r <= c {
            assert(lower_entry(a, r, r) * upper_entry(a, r, c) == upper_entry(a, r, c))
                by (nonlinear_arith)
                requires
                    lower_entry(a, r, r) == 1,
            ;
        }
    } else {
        lemma_sum_past_diagonal(a, r, c, (n - 1) as nat);
        assert(lower_entry(a, r, j) * upper_entry(a, j, c) == 0) by (nonlinear_arith)
            requires
                lower_entry(a, r, j) == 0 || upper_entry(a, j, c) == 0,
        ;
    }
}

/// The product of the two factors of a matrix whose divisions are exact is
/// the matrix.
pub proof fn lemma_factors_multiply_back(a: Seq<Seq<int>>, dim: nat)
    requires
        has_shape(a, dim, dim),
        lu_exact(a, dim),
    ensures
        product(lower_factor(a, dim), upper_factor(a, dim), dim) == a,
{
    let lower = lower_factor(a, dim);
    let upper = upper_factor(a, dim);
    assert forall|r: int, c: int| 0 <= r < dim && 0 <= c < dim implies #[trigger] dot(
        lower,
        upper,
        r,
        c,
        dim,
    ) == a[r][c] by {
        lemma_factor_dot(a, dim, r, c, dim);
        lemma_sum_past_diagonal(a, r, c, dim);
    }
    assert(product(lower, upper, dim) =~~= a);
}

/// An element type in which the factorisation of `a` can be computed, with
/// exact divisions, holds every intermediate value of the product of the
/// two factors.
pub proof fn lemma_factors_product_fits<T: Element>(a: Seq<Seq<int>>, dim: nat)
    requires
        has_shape(a, dim, dim),
        entries_fit::<T>(a, dim, dim),
        lu_fits::<T>(a, dim),
        lu_exact(a, dim),
    ensures
        product_fits::<T>(lower_factor(a, dim), upper_factor(a, dim), dim),
{
    T::lemma_identities_fit();
    let lower = lower_factor(a, dim);
    let upper = upper_factor(a, dim);
    assert forall|r: int, c: int| 0 <= r < dim && 0 <= c < dim implies #[trigger] dot_fits::<T>(
        lower,
        upper,
        r,
        c,
        dim,
    ) by {
        assert(lu_entry_fits::<T>(a, r, c));
        assert forall|k: int| 0 <= k < dim implies #[trigger] step_fits::<T>(
            lower,
            upper,
            r,
            c,
            k,
        ) by {
            lemma_factor_dot(a, dim, r, c, (k + 1) as nat);
            if k < lesser(r, c) {
                assert(lu_term_fits::<T>(a, r, c, k));
            } else {
                lemma_sum_past_diagonal(a, r, c, (k + 1) as nat);
                if k == lesser(r, c) && r <= c {
                    assert(lower_entry(a, r, r) * upper_entry(a, r, c) == upper_entry(a, r, c))
                        by (nonlinear_arith)
                        requires
                            lower_entry(a, r, r) == 1,
                    ;
                }
            }
        }
    }
}

/// LU reconstruction: where the decomposition of a square matrix `m` can be
/// computed and its divisions are exact, the product of the lower and the
/// upper factor can be computed and is `m`.
pub proof fn law_lu_reconstruction<T: Element, const DIM: usize>(
    m: Matrix<T, DIM, DIM>,
    lower: Matrix<T, DIM, DIM>,
    upper: Matrix<T, DIM, DIM>,
)
    requires
        lu_fits::<T>(m@, DIM as nat),
        lu_exact(m@, DIM as nat),
        lower@ == lower_factor(m@, DIM as nat),
        upper@ == upper_factor(m@, DIM as nat),
    ensures
        lower.mul_req(upper),
        product(lower@, upper@, DIM as nat) == m@,
        lower.mul_spec(upper) == m,
{
    m.lemma_view_entries();
    assert forall|i: int, j: int| 0 <= i < DIM && 0 <= j < DIM implies T::fits(
        #[trigger] m@[i][j],
    ) by {
        m.at(i, j).lemma_val_fits();
    }
    lemma_factors_multiply_back(m@, DIM as nat);
    lemma_factors_product_fits::<T>(m@, DIM as nat);
    Matrix::lemma_view_injective(lower.mul_spec(upper), m);
}

} // verus!
