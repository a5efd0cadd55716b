//! Determinants of the identity, and the two ways to a determinant.

use crate::algebra::unit;
use crate::doolittle::{
    diagonal_product, divides_exactly, lemma_lower_diagonal_product, lesser, lower_entry,
    lower_factor, lu_determinant, lu_determinant_fits, lu_entry_fits, lu_exact, lu_sum,
    lu_term_fits, pivot_product_fits, upper_entry, upper_factor,
};
use crate::element::Element;
use crate::ops::det::{closed_form, determinant, determinant_fits};
use crate::Matrix;
use vstd::prelude::*;

verus! {

/// Before the diagonal, the sums that factor the identity are zero, and so
/// is each of their products.
proof fn lemma_unit_sum(dim: nat, r: int, c: int, n: nat)
    requires
        0 <= r < dim,
        0 <= c < dim,
        n <= lesser(r, c),
    ensures
        lu_sum(unit(dim), r, c, n) == 0,
        n > 0 ==> lower_entry(unit(dim), r, n - 1) * upper_entry(unit(dim), n - 1, c) == 0,
    decreases n, 0int,
{
    if n > 0 {
        lemma_unit_sum(dim, r, c, (n - 1) as nat);
        lemma_unit_lower(dim, r, n - 1);
        assert(lower_entry(unit(dim), r, n - 1) * upper_entry(unit(dim), n - 1, c) == 0)
            by (nonlinear_arith)
            requires
                lower_entry(unit(dim), r, n - 1) == 0,
        ;
    }
}

/// The upper factor of the identity is the identity.
proof fn lemma_unit_upper(dim: nat, r: int, c: int)
    requires
        0 <= r < dim,
        0 <= c < dim,
    ensures
        upper_entry(unit(dim), r, c) == unit(dim)[r][c],
    decreases r, 1int,
{
    if r <= c {
        lemma_unit_sum(dim, r, c, r as nat);
    }
}

/// The lower factor of the identity is the identity.
proof fn lemma_unit_lower(dim: nat, r: int, c: int)
    requires
        0 <= r < dim,
        0 <= c < dim,
    ensures
        lower_entry(unit(dim), r, c) == unit(dim)[r][c],
    decreases c, 2int,
{
    if c < r {
        lemma_unit_sum(dim, r, c, c as nat);
        lemma_unit_upper(dim, c, c);
    }
}

/// Every product of pivots of the identity is one.
proof fn lemma_unit_pivot_product(dim: nat, n: nat)
    requires
        n <= dim,
    ensures
        diagonal_product(upper_factor(unit(dim), dim), n) == 1,
    decreases n,
{
    if n > 0 {
        lemma_unit_pivot_product(dim, (n - 1) as nat);
        lemma_unit_upper(dim, n - 1, n - 1);
    }
}

/// The determinant of the identity of any dimension, taken from its
/// factorisation, is one, and every element type can compute it.
pub proof fn lemma_unit_lu_determinant<T: Element>(dim: nat)
    ensures
        lu_determinant_fits::<T>(unit(dim), dim),
        lu_determinant(unit(dim), dim) == 1,
{
    T::lemma_identities_fit();
    let id = unit(dim);
    assert forall|r: int, c: int| 0 <= r < dim && 0 <= c < dim implies #[trigger] lu_entry_fits::<
        T,
    >(id, r, c) by {
        assert forall|j: int| 0 <= j < lesser(r, c) implies #[trigger] lu_term_fits::<T>(
            id,
            r,
            c,
            j,
        ) by {
            lemma_unit_sum(dim, r, c, (j + 1) as nat);
        }
        lemma_unit_sum(dim, r, c, lesser(r, c) as nat);
        if c < r {
            lemma_unit_upper(dim, c, c);
            lemma_unit_lower(dim, r, c);
        }
    }
    assert forall|n: int| 0 <= n < dim implies #[trigger] pivot_product_fits::<T>(id, dim, n) by {
        lemma_unit_pivot_product(dim, (n + 1) as nat);
    }
    lemma_unit_pivot_product(dim, dim);
    lemma_lower_diagonal_product(id, dim, dim);
}

/// The determinant of the identity of any dimension is one, and every
/// element type can compute it.
pub proof fn lemma_unit_determinant<T: Element>(dim: nat)
    ensures
        determinant_fits::<T>(unit(dim), dim),
        determinant(unit(dim), dim) == 1,
{
    T::lemma_identities_fit();
    lemma_unit_lu_determinant::<T>(dim);
    let id = unit(dim);
    if dim == 2 {
        assert(id[0][0] == 1 && id[0][1] == 0 && id[1][0] == 0 && id[1][1] == 1);
    } else if dim == 3 {
        assert(id[0][0] == 1 && id[0][1] == 0 && id[0][2] == 0);
        assert(id[1][0] == 0 && id[1][1] == 1 && id[1][2] == 0);
        assert(id[2][0] == 0 && id[2][1] == 0 && id[2][2] == 1);
    } else if dim == 1 {
        assert(id[0][0] == 1);
    }
}

/// Determinant of the identity: for every dimension, the determinant of
/// the identity matrix can be computed and is one, by `det` and from the LU
/// decomposition alike.
pub proof fn law_identity_determinant<T: Element, const DIM: usize>(identity: Matrix<T, DIM, DIM>)
    requires
        identity@ == unit(DIM as nat),
    ensures
        determinant_fits::<T>(identity@, DIM as nat),
        determinant(identity@, DIM as nat) == 1,
        lu_determinant_fits::<T>(identity@, DIM as nat),
        lu_determinant(identity@, DIM as nat) == 1,
{
    lemma_unit_determinant::<T>(DIM as nat);
    lemma_unit_lu_determinant::<T>(DIM as nat);
}

/// The first row of the upper factor is the first row of the matrix, and
/// the sums for the first row and the first column are empty.
proof fn lemma_first_row(a: Seq<Seq<int>>, r: int, c: int)
    requires
        0 <= r,
        0 <= c,
    ensures
        lu_sum(a, r, c, 0) == 0,
        upper_entry(a, 0, c) == a[0][c],
        lu_sum(a, r, c, 1) == lower_entry(a, r, 0) * a[0][c],
{
}

/// The product of three pivots, written out.
proof fn lemma_three_pivots(m: Seq<Seq<int>>)
    ensures
        diagonal_product(m, 0) == 1,
        diagonal_product(m, 1) == m[0][0],
        diagonal_product(m, 2) == m[0][0] * m[1][1],
        diagonal_product(m, 3) == m[0][0] * m[1][1] * m[2][2],
{
    assert(1 * m[0][0] == m[0][0]) by (nonlinear_arith);
}

/// The algebra behind the 3 by 3 case: with multipliers `l1`, `l2` and
/// `l3` that divide exactly, the product of the three pivots is the
/// determinant by the rule of Sarrus.
proof fn lemma_sarrus_from_pivots(
    a: int,
    b: int,
    c: int,
    d: int,
    e: int,
    f: int,
    g: int,
    h: int,
    i: int,
    l1: int,
    l2: int,
    l3: int,
)
    requires
        l1 * a == d,
        l2 * a == g,
        l3 * (e - l1 * b) == h - l2 * b,
    ensures
        a * (e - l1 * b) * (i - (l2 * c + l3 * (f - l1 * c))) == a * e * i + b * f * g + c * d * h
            - c * e * g - b * d * i - a * f * h,
{
    let u11 = e - l1 * b;
    let u12 = f - l1 * c;
    let u22 = i - (l2 * c + l3 * u12);
    let p = a * u11;
    let m = d * l2;
    assert(p == a * e - d * b) by (nonlinear_arith)
        requires
            p == a * (e - l1 * b),
            l1 * a == d,
    ;
    assert(m == g * l1) by (nonlinear_arith)
        requires
            m == d * l2,
            l1 * a == d,
            l2 * a == g,
    ;
    let x = p * i;
    assert(x == a * e * i - b * d * i) by (nonlinear_arith)
        requires
            x == p * i,
            p == a * e - d * b,
    ;
    let y = p * l2;
    assert(y == e * g - b * m) by (nonlinear_arith)
        requires
            y == p * l2,
            p == a * e - d * b,
            l2 * a == g,
            m == d * l2,
    ;
    let z = p * l3;
    assert(z == a * h - g * b) by (nonlinear_arith)
        requires
            z == (a * u11) * l3,
            l3 * u11 == h - l2 * b,
            l2 * a == g,
    ;
    let v = l1 * c;
    assert(a * v == d * c) by (nonlinear_arith)
        requires
            v == l1 * c,
            l1 * a == d,
    ;
    assert(g * v == m * c) by (nonlinear_arith)
        requires
            v == l1 * c,
            m == g * l1,
    ;
    assert(z * v == h * (a * v) - b * (g * v)) by (nonlinear_arith)
        requires
            z == a * h - g * b,
    ;
    assert(h * (d * c) == c * d * h) by (nonlinear_arith);
    assert(b * (m * c) == b * m * c) by (nonlinear_arith);
    assert(y * c == c * e * g - b * m * c) by (nonlinear_arith)
        requires
            y == e * g - b * m,
    ;
    assert(z * f == a * f * h - b * f * g) by (nonlinear_arith)
        requires
            z == a * h - g * b,
    ;
    assert(z * u12 == z * f - z * v) by (nonlinear_arith)
        requires
            u12 == f - v,
    ;
    assert(p * u22 == x - y * c - z * u12) by (nonlinear_arith)
        requires
            u22 == i - (l2 * c + l3 * u12),
            x == p * i,
            y == p * l2,
            z == p * l3,
    ;
}

/// Cross-validation: for a square matrix of dimension at most three whose
/// factorisation divides exactly, the determinant taken from the
/// factorisation is the determinant by closed form.
pub proof fn lemma_lu_determinant_is_closed_form(a: Seq<Seq<int>>, dim: nat)
    requires
        dim <= 3,
        lu_exact(a, dim),
    ensures
        lu_determinant(a, dim) == closed_form(a, dim),
{
    let lower = lower_factor(a, dim);
    let upper = upper_factor(a, dim);
    lemma_lower_diagonal_product(a, dim, dim);
    lemma_three_pivots(upper);
    assert(lu_determinant(a, dim) == diagonal_product(upper, dim)) by (nonlinear_arith)
        requires
            lu_determinant(a, dim) == diagonal_product(lower, dim) * diagonal_product(upper, dim),
            diagonal_product(lower, dim) == 1,
    ;
    if dim >= 1 {
        lemma_first_row(a, 0, 0);
    }
    if dim >= 2 {
        let l1 = lower_entry(a, 1, 0);
        lemma_first_row(a, 1, 0);
        lemma_first_row(a, 1, 1);
        assert(divides_exactly(a, 1, 0));
        if dim == 2 {
            assert(a[0][0] * (a[1][1] - l1 * a[0][1]) == a[0][0] * a[1][1] - a[0][1] * a[1][0])
                by (nonlinear_arith)
                requires
                    l1 * a[0][0] == a[1][0],
            ;
        }
    }
    if dim == 3 {
        let l1 = lower_entry(a, 1, 0);
        let l2 = lower_entry(a, 2, 0);
        let l3 = lower_entry(a, 2, 1);
        lemma_first_row(a, 0, 1);
        lemma_first_row(a, 0, 2);
        lemma_first_row(a, 1, 2);
        lemma_first_row(a, 2, 0);
        lemma_first_row(a, 2, 1);
        lemma_first_row(a, 2, 2);
        assert(divides_exactly(a, 2, 0));
        assert(divides_exactly(a, 2, 1));
        assert(lu_sum(a, 2, 2, 2) == lu_sum(a, 2, 2, 1) + l3 * upper_entry(a, 1, 2));
        lemma_sarrus_from_pivots(
            a[0][0],
            a[0][1],
            a[0][2],
            a[1][0],
            a[1][1],
            a[1][2],
            a[2][0],
            a[2][1],
            a[2][2],
            l1,
            l2,
            l3,
        );
    }
}

/// Cross-validation: for a square matrix of dimension at most three whose
/// decomposition divides exactly, the determinant computed from the LU
/// decomposition is the one that the closed form gives.
pub proof fn law_determinant_paths_agree<T: Element, const DIM: usize>(m: Matrix<T, DIM, DIM>)
    requires
        DIM <= 3,
        lu_exact(m@, DIM as nat),
    ensures
        lu_determinant(m@, DIM as nat) == determinant(m@, DIM as nat),
{
    lemma_lu_determinant_is_closed_form(m@, DIM as nat);
}

} // verus!
