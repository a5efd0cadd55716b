use fixed_matrix::Matrix;

#[test]
fn it_should_transpose_matrix() {
    let square = Matrix::<i32, 4, 4>::identity();

    let nonsquare = Matrix([[1, 2]]);

    assert_eq!(square.transpose().transpose(), square);
    assert_eq!(nonsquare.transpose().transpose(), nonsquare);
    assert_eq!(nonsquare.transpose(), Matrix([[1], [2]]))
}

#[test]
fn transpose_exchanges_rows_and_columns() {
    let matrix = Matrix([[1, 2, 3], [4, 5, 6]]);
    assert_eq!(matrix.transpose(), Matrix([[1, 4], [2, 5], [3, 6]]));
}

#[test]
fn transposing_twice_gives_the_matrix_back() {
    let matrix = Matrix([[1i64, -2, 3], [4, 5, -6]]);
    assert_eq!(matrix.transpose().transpose(), matrix);
    let column = Matrix([[1isize], [2], [3]]);
    assert_eq!(column.transpose().transpose(), column);
    let empty: Matrix<i32, 0, 2> = Matrix([]);
    assert_eq!(empty.transpose().transpose(), empty);
}
