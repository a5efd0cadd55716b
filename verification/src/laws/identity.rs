//! The identity matrix as a factor.

use crate::algebra::{
    dot, dot_fits, entries_fit, has_shape, product, product_fits, step_fits, term, unit,
};
use crate::element::Element;
use crate::Matrix;
use vstd::prelude::*;
use vstd::std_specs::ops::MulSpec;

verus! {

/// The first `n` terms of row `i` of the identity times column `j` of `m`
/// sum to entry `(i, j)` of `m` once term `i` is among them, and to zero
/// before.
proof fn lemma_unit_row_dot(m: Seq<Seq<int>>, dim: nat, i: int, j: int, n: nat)
    requires
        0 <= i < dim,
        0 <= j < dim,
        n <= dim,
    ensures
        dot(unit(dim), m, i, j, n) == (if i < n {
            m[i][j]
        } else {
            0
        }),
        n > 0 ==> term(unit(dim), m, i, j, n - 1) == (if i == n - 1 {
            m[i][j]
        } else {
            0
        }),
    decreases n,
{
    if n > 0 {
        lemma_unit_row_dot(m, dim, i, j, (n - 1) as nat);
        let k = n - 1;
        assert(term(unit(dim), m, i, j, k) == (if i == k {
            m[i][j]
        } else {
            0
        })) by (nonlinear_arith)
            requires
                term(unit(dim), m, i, j, k) == unit(dim)[i][k] * m[k][j],
                unit(dim)[i][k] == (if i == k {
                    1int
                } else {
                    0int
                }),
        ;
    }
}

/// The first `n` terms of row `i` of `m` times column `j` of the identity
/// sum to entry `(i, j)` of `m` once term `j` is among them, and to zero
/// before.
proof fn lemma_unit_column_dot(m: Seq<Seq<int>>, dim: nat, i: int, j: int, n: nat)
    requires
        0 <= i < dim,
        0 <= j < dim,
        n <= dim,
    ensures
        dot(m, unit(dim), i, j, n) == (if j < n {
            m[i][j]
        } else {
            0
        }),
        n > 0 ==> term(m, unit(dim), i, j, n - 1) == (if j == n - 1 {
            m[i][j]
        } else {
            0
        }),
    decreases n,
{
    if n > 0 {
        lemma_unit_column_dot(m, dim, i, j, (n - 1) as nat);
        let k = n - 1;
        assert(term(m, unit(dim), i, j, k) == (if k == j {
            m[i][j]
        } else {
            0
        })) by (nonlinear_arith)
            requires
                term(m, unit(dim), i, j, k) == m[i][k] * unit(dim)[k][j],
                unit(dim)[k][j] == (if k == j {
                    1int
                } else {
                    0int
                }),
        ;
    }
}

/// The identity is neutral for the product of integer matrices, on both
/// sides, and an element type that holds the entries of `m` holds every
/// intermediate value of both products.
pub proof fn lemma_unit_product<T: Element>(m: Seq<Seq<int>>, dim: nat)
    requires
        has_shape(m, dim, dim),
        entries_fit::<T>(m, dim, dim),
    ensures
        product_fits::<T>(unit(dim), m, dim),
        product(unit(dim), m, dim) == m,
        product_fits::<T>(m, unit(dim), dim),
        product(m, unit(dim), dim) == m,
{
    T::lemma_identities_fit();
    let id = unit(dim);
    assert forall|i: int, j: int| 0 <= i < dim && 0 <= j < dim implies #[trigger] dot_fits::<T>(
        id,
        m,
        i,
        j,
        dim,
    ) by {
        assert forall|k: int| 0 <= k < dim implies #[trigger] step_fits::<T>(id, m, i, j, k) by {
            lemma_unit_row_dot(m, dim, i, j, (k + 1) as nat);
        }
    }
    assert forall|i: int, j: int| 0 <= i < dim && 0 <= j < dim implies #[trigger] dot_fits::<T>(
        m,
        id,
        i,
        j,
        dim,
    ) by {
        assert forall|k: int| 0 <= k < dim implies #[trigger] step_fits::<T>(m, id, i, j, k) by {
            lemma_unit_column_dot(m, dim, i, j, (k + 1) as nat);
        }
    }
    assert forall|i: int, j: int| 0 <= i < dim && 0 <= j < dim implies #[trigger] dot(
        id,
        m,
        i,
        j,
        dim,
    ) == m[i][j] by {
        lemma_unit_row_dot(m, dim, i, j, dim);
    }
    assert forall|i: int, j: int| 0 <= i < dim && 0 <= j < dim implies #[trigger] dot(
        m,
        id,
        i,
        j,
        dim,
    ) == m[i][j] by {
        lemma_unit_column_dot(m, dim, i, j, dim);
    }
    assert(product(id, m, dim) =~~= m);
    assert(product(m, id, dim) =~~= m);
}

/// The identity law: the product of the identity matrix and a square
/// matrix `m`, in either order, can be computed and is `m`.
pub proof fn law_identity_product<T: Element, const DIM: usize>(
    identity: Matrix<T, DIM, DIM>,
    m: Matrix<T, DIM, DIM>,
)
    requires
        identity@ == unit(DIM as nat),
    ensures
        identity.mul_req(m),
        product(identity@, m@, DIM as nat) == m@,
        identity.mul_spec(m) == m,
        m.mul_req(identity),
        product(m@, identity@, DIM as nat) == m@,
        m.mul_spec(identity) == m,
{
    m.lemma_view_entries();
    assert forall|i: int, j: int| 0 <= i < DIM && 0 <= j < DIM implies T::fits(
        #[trigger] m@[i][j],
    ) by {
        m.at(i, j).lemma_val_fits();
    }
    lemma_unit_product::<T>(m@, DIM as nat);
    Matrix::lemma_view_injective(identity.mul_spec(m), m);
    Matrix::lemma_view_injective(m.mul_spec(identity), m);
}

} // verus!
