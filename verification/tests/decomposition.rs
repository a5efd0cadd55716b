use fixed_matrix::ops::lu::LUDecomposition;
use fixed_matrix::Matrix;

#[test]
fn it_should_decompose_matrix() {
    let matrix = Matrix([[2, -1, -2], [-4, 6, 3], [-4, -2, 8]]);

    let LUDecomposition { lower, upper, .. } = matrix.lu();

    assert_eq!(lower, Matrix([[1, 0, 0], [-2, 1, 0], [-2, -1, 1]]));

    assert_eq!(upper, Matrix([[2, -1, -2], [0, 4, -1], [0, 0, 3]]));

    assert_eq!(lower * upper, matrix);
}

#[test]
fn no_rows_are_exchanged() {
    let matrix = Matrix([[2, -1, -2], [-4, 6, 3], [-4, -2, 8]]);
    assert_eq!(matrix.lu().swaps, 0);
    assert_eq!(Matrix::<i32, 5, 5>::identity().lu().swaps, 0);
}

#[test]
fn it_should_decompose_a_4x4_matrix() {
    let matrix = Matrix([
        [1i64, 0, 4, -6],
        [2, 5, 0, 3],
        [-1, 15, -25, 53],
        [2, 5, -6, 6],
    ]);

    let LUDecomposition { lower, upper, swaps } = matrix.lu();

    assert_eq!(
        lower,
        Matrix([[1i64, 0, 0, 0], [2, 1, 0, 0], [-1, 3, 1, 0], [2, 1, -2, 1]])
    );
    assert_eq!(
        upper,
        Matrix([[1i64, 0, 4, -6], [0, 5, -8, 15], [0, 0, 3, 2], [0, 0, 0, 7]])
    );
    assert_eq!(swaps, 0);
    assert_eq!(lower * upper, matrix);
}

#[test]
fn the_factors_of_the_identity_are_the_identity() {
    let identity = Matrix::<isize, 4, 4>::identity();
    let LUDecomposition { lower, upper, .. } = identity.lu();
    assert_eq!(lower, identity);
    assert_eq!(upper, identity);
}

#[test]
fn the_empty_matrix_has_empty_factors() {
    let empty: Matrix<i32, 0, 0> = Matrix([]);
    let LUDecomposition { lower, upper, swaps } = empty.lu();
    assert_eq!(lower, empty);
    assert_eq!(upper, empty);
    assert_eq!(swaps, 0);
}

#[test]
fn quotients_round_toward_zero() {
    let LUDecomposition { lower, upper, .. } = Matrix([[2, 0], [-3, 1]]).lu();
    assert_eq!(lower, Matrix([[1, 0], [-1, 1]]));
    assert_eq!(upper, Matrix([[2, 0], [0, 1]]));

    let LUDecomposition { lower, upper, .. } = Matrix([[2, 1], [1, 1]]).lu();
    assert_eq!(lower, Matrix([[1, 0], [0, 1]]));
    assert_eq!(upper, Matrix([[2, 1], [0, 1]]));
}

#[test]
fn the_last_pivot_may_be_zero() {
    let LUDecomposition { lower, upper, .. } = Matrix([[1, 2], [2, 4]]).lu();
    assert_eq!(lower, Matrix([[1, 0], [2, 1]]));
    assert_eq!(upper, Matrix([[1, 2], [0, 0]]));
}
