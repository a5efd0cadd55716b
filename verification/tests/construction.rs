use fixed_matrix::Matrix;
use std::mem::{size_of, size_of_val};

type ElementType = i32;
type Mat<const R: usize, const C: usize> = Matrix<ElementType, R, C>;

#[test]
fn it_should_create_vectors() {
    assert!(Mat::<1, 1>::default().is_row_vector());
    assert!(Mat::<1, 1>::default().is_column_vector());

    assert!(!Mat::<3, 1>::default().is_row_vector());
    assert!(Mat::<3, 1>::default().is_column_vector());

    assert!(Mat::<1, 3>::default().is_row_vector());
    assert!(!Mat::<1, 3>::default().is_column_vector());

    assert!(!Mat::<3, 3>::default().is_row_vector());
    assert!(!Mat::<3, 3>::default().is_column_vector());
}

#[test]
fn it_should_return_correct_dimensions() {
    assert_eq!(Mat::<1, 1>::default().dim(), (1, 1));
    assert_eq!(Mat::<1, 2>::default().dim(), (1, 2));
    assert_eq!(Mat::<2, 1>::default().dim(), (2, 1));
}

#[test]
fn it_should_create_matrix_with_same_size_than_array() {
    const ROWS: usize = 2;
    const COLS: usize = 3;

    type T = isize;
    type Mat = Matrix<T, ROWS, COLS>;
    type RawMat = [[T; COLS]; ROWS];

    assert!(size_of::<Mat>() == size_of::<RawMat>());

    let raw_matrix: RawMat = [[1, 2, 3], [4, 5, 6]];
    let mat: Mat = raw_matrix.try_into().expect("Should never fail");

    assert!(size_of_val(&mat) == size_of_val(&raw_matrix));
}

#[test]
fn it_should_create_matrices_correctly() {
    assert_eq!(Mat::<1, 1>::default(), [[0]]);
    assert_eq!(Mat::<1, 2>::default(), [[0, 0]]);
    assert_eq!(Mat::<2, 1>::default(), [[0], [0]]);
    assert_eq!(Mat::<2, 2>::default(), [[0, 0], [0, 0]]);

    let m = Matrix([[1, 2], [3, 4], [5, 6]]);

    assert_eq!(m[0][0], 1);
    assert_eq!(m[0][1], 2);
    assert_eq!(m[1][0], 3);
    assert_eq!(m[1][1], 4);
    assert_eq!(m[2][0], 5);
    assert_eq!(m[2][1], 6);
}

#[test]
fn lib_it_shoud_create_identity_matrix() {
    let matrix = Mat::<3, 3>::identity();

    let mut walk = matrix.iter();
    while let Some((row, col, el)) = walk.next() {
        if row == col {
            assert_eq!(el, &1);
        } else {
            assert_eq!(el, &0);
        }
    }
}

#[test]
fn id_it_shoud_create_identity_matrix() {
    let matrix = Matrix::<i32, 3, 3>::identity();

    let mut walk = matrix.iter();
    while let Some((row, col, el)) = walk.next() {
        if row == col {
            assert_eq!(*el as f32, 1f32);
        } else {
            assert_eq!(*el as f32, 0f32);
        }
    }
}

#[test]
#[should_panic(expected = "index out of bounds")]
#[allow(unconditional_panic)]
fn it_should_panic_index_out_of_bounds() {
    Mat::<1, 1>::ones()[2][2];
}

#[test]
fn zeroes_holds_the_additive_identity_everywhere() {
    assert_eq!(Matrix::<i32, 2, 3>::zeroes(), [[0, 0, 0], [0, 0, 0]]);
    assert_eq!(Matrix::<i64, 1, 2>::zeroes(), [[0i64, 0]]);
    assert_eq!(Matrix::<isize, 2, 1>::zeroes(), [[0isize], [0]]);
}

#[test]
fn ones_holds_the_multiplicative_identity_everywhere() {
    assert_eq!(Matrix::<i32, 2, 2>::ones(), [[1, 1], [1, 1]]);
    assert_eq!(Matrix::<i64, 1, 1>::ones(), [[1i64]]);
    assert_eq!(Matrix::<isize, 3, 3>::ones(), [[1isize; 3]; 3]);
}

#[test]
fn identity_has_ones_on_the_diagonal_only() {
    assert_eq!(Matrix::<i32, 1, 1>::identity(), [[1]]);
    assert_eq!(Matrix::<i64, 2, 2>::identity(), [[1i64, 0], [0, 1]]);
    assert_eq!(
        Matrix::<isize, 4, 4>::identity(),
        [[1isize, 0, 0, 0], [0, 1, 0, 0], [0, 0, 1, 0], [0, 0, 0, 1]]
    );
    assert_eq!(Matrix::<i32, 0, 0>::identity().dim(), (0, 0));
}

#[test]
fn default_holds_the_default_value_everywhere() {
    assert_eq!(Matrix::<bool, 1, 2>::default(), [[false, false]]);
    assert_eq!(Matrix::<u8, 2, 2>::default(), [[0u8, 0], [0, 0]]);
}

#[test]
fn from_keeps_the_rows_of_the_array() {
    let raw = [[1, 2, 3], [4, 5, 6]];
    let matrix = Matrix::from(raw);
    assert_eq!(matrix.0, raw);
    assert_eq!(matrix, raw);
}

#[test]
fn set_replaces_one_element() {
    let mut matrix = Matrix([[1, 2], [3, 4]]);
    matrix.set(1, 0, 9);
    assert_eq!(matrix, [[1, 2], [9, 4]]);
}

#[test]
fn rows_can_be_read_and_written_by_index() {
    let mut matrix = Matrix([[1, 2], [3, 4]]);
    assert_eq!(matrix[1], [3, 4]);
    matrix[0][1] = 7;
    matrix[1] = [5, 6];
    assert_eq!(matrix, [[1, 7], [5, 6]]);
}

#[test]
fn matrices_with_one_different_element_are_not_equal() {
    let matrix = Matrix([[1, 2], [3, 4]]);
    assert_ne!(matrix, Matrix([[1, 2], [3, 5]]));
    assert_ne!(matrix, [[0, 2], [3, 4]]);
    assert_eq!(matrix, Matrix([[1, 2], [3, 4]]));
}
