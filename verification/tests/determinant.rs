use fixed_matrix::ops::det::{det0, det1, det2, det3};
use fixed_matrix::Matrix;

#[test]
fn it_should_calculate_determinant_for_0x0_matrix() {
    type Mat = Matrix<i32, 0, 0>;
    assert_eq!(Mat::default().det(), 1)
}

#[test]
fn it_should_calculate_determinant_for_1x1_matrix() {
    assert_eq!(Matrix([[100]]).det(), 100)
}

#[test]
fn it_should_calculate_determinant_for_2x2_matrix() {
    let mat = Matrix([[1, 2], [3, 4]]);

    assert_eq!(mat.det(), -2)
}

#[test]
fn it_should_calculate_determinant_for_3x3_matrix() {
    let mat = Matrix([[-7, -10, 4], [3, -9, 2], [7, 1, 2]]);

    assert_eq!(mat.det(), 324)
}

#[test]
fn it_should_calculate_determinant_for_4x4_integer_matrix() {
    let mat = Matrix([
        [1i64, 0, 4, -6],
        [2, 5, 0, 3],
        [-1, 15, -25, 53],
        [2, 5, -6, 6],
    ]);

    assert_eq!(mat.det(), 105);
    assert_eq!(mat.det_via_lu(), 105);
}

#[test]
fn it_should_calculate_determinant_for_5x5_matrix() {
    let lower = Matrix([
        [1, 0, 0, 0, 0],
        [2, 1, 0, 0, 0],
        [0, -1, 1, 0, 0],
        [3, 0, 2, 1, 0],
        [-1, 1, 0, 4, 1],
    ]);
    let upper = Matrix([
        [2, 1, 0, -1, 3],
        [0, 3, 1, 0, 2],
        [0, 0, 1, 5, 0],
        [0, 0, 0, -1, 2],
        [0, 0, 0, 0, 4],
    ]);
    let mat = lower * upper;

    assert_eq!(mat.det(), -24);
    assert_eq!(mat.lu().lower, lower);
    assert_eq!(mat.lu().upper, upper);
}

#[test]
fn the_closed_forms_take_their_matrices_directly() {
    assert_eq!(det0(&Matrix::<i32, 0, 0>([])), 1);
    assert_eq!(det1(&Matrix([[-5]])), -5);
    assert_eq!(det2(&Matrix([[2, 3], [5, 7]])), -1);
    assert_eq!(det3(&Matrix([[2, 0, 0], [0, 3, 0], [0, 0, 4]])), 24);
    assert_eq!(det3(&Matrix([[0, 1, 0], [1, 0, 0], [0, 0, 1]])), -1);
}

#[test]
fn the_determinant_of_the_identity_is_one() {
    assert_eq!(Matrix::<i32, 0, 0>::identity().det(), 1);
    assert_eq!(Matrix::<i32, 1, 1>::identity().det(), 1);
    assert_eq!(Matrix::<i32, 2, 2>::identity().det(), 1);
    assert_eq!(Matrix::<i32, 3, 3>::identity().det(), 1);
    assert_eq!(Matrix::<i64, 4, 4>::identity().det(), 1);
    assert_eq!(Matrix::<isize, 5, 5>::identity().det(), 1);
    assert_eq!(Matrix::<i32, 6, 6>::identity().det(), 1);
    assert_eq!(Matrix::<i32, 9, 9>::identity().det_via_lu(), 1);
}

#[test]
fn the_closed_form_agrees_with_the_decomposition() {
    let empty: Matrix<i32, 0, 0> = Matrix([]);
    assert_eq!(empty.det(), empty.det_via_lu());

    let single = Matrix([[100]]);
    assert_eq!(single.det_via_lu(), 100);
    assert_eq!(single.det(), single.det_via_lu());

    let square = Matrix([[1, 2], [3, 4]]);
    assert_eq!(square.det_via_lu(), -2);
    assert_eq!(square.det(), square.det_via_lu());

    let cube = Matrix([[2, -1, -2], [-4, 6, 3], [-4, -2, 8]]);
    assert_eq!(cube.det(), 24);
    assert_eq!(cube.det(), cube.det_via_lu());
}

#[test]
fn a_remainder_in_the_decomposition_changes_its_determinant() {
    let mat = Matrix([[2, 1], [1, 1]]);
    assert_eq!(mat.det(), 1);
    assert_eq!(mat.det_via_lu(), 2);
}

#[test]
fn a_singular_matrix_has_determinant_zero() {
    assert_eq!(Matrix([[1, 2], [2, 4]]).det(), 0);
    assert_eq!(Matrix([[1, 2], [2, 4]]).det_via_lu(), 0);
    assert_eq!(Matrix([[1, 2, 3], [4, 5, 6], [7, 8, 9]]).det(), 0);
}
