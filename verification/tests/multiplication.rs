use fixed_matrix::Matrix;

#[test]
fn it_should_multiplicate_matrices_with_different_dimensions() {
    let a = Matrix([[1, 2], [3, 4]]);
    let b = Matrix([[1, 2, 3], [4, 5, 6]]);

    let actual = a * b;

    let expected = Matrix([[9, 12, 15], [19, 26, 33]]);

    assert_eq!(actual, expected)
}

#[test]
fn it_should_multiplicate_matrices_with_same_dimensions() {
    let identity: Matrix<i32, 4, 4> = Matrix::identity();
    let ones: Matrix<i32, 4, 4> = Matrix::ones();
    assert_eq!(identity * ones, ones);
}

#[test]
fn the_identity_is_neutral_on_both_sides() {
    let matrix = Matrix([[3, -1, 4], [1, -5, 9], [2, 6, -5]]);
    let identity: Matrix<i32, 3, 3> = Matrix::identity();
    assert_eq!(identity * matrix, matrix);
    assert_eq!(matrix * identity, matrix);

    let single = Matrix([[-8i64]]);
    assert_eq!(Matrix::<i64, 1, 1>::identity() * single, single);
    assert_eq!(single * Matrix::<i64, 1, 1>::identity(), single);
}

#[test]
fn the_product_is_not_commutative() {
    let a = Matrix([[1, 2], [3, 4]]);
    let b = Matrix([[0, 1], [1, 0]]);
    assert_eq!(a * b, Matrix([[2, 1], [4, 3]]));
    assert_eq!(b * a, Matrix([[3, 4], [1, 2]]));
}

#[test]
fn a_row_times_a_column_is_their_dot_product() {
    let row = Matrix([[1isize, 2, 3]]);
    let column = Matrix([[4isize], [5], [6]]);
    assert_eq!(row * column, Matrix([[32isize]]));
    assert_eq!(
        column * row,
        Matrix([[4isize, 8, 12], [5, 10, 15], [6, 12, 18]])
    );
}

#[test]
fn a_product_over_no_terms_is_zero() {
    let left: Matrix<i32, 2, 0> = Matrix([[], []]);
    let right: Matrix<i32, 0, 2> = Matrix([]);
    assert_eq!(left * right, Matrix([[0, 0], [0, 0]]));
}
