use fixed_matrix::Matrix;

#[test]
fn elements_come_in_row_major_order() {
    let matrix = Matrix([[1, 2, 3], [4, 5, 6]]);
    let mut walk = matrix.iter();
    assert_eq!(walk.next(), Some((0, 0, &1)));
    assert_eq!(walk.next(), Some((0, 1, &2)));
    assert_eq!(walk.next(), Some((0, 2, &3)));
    assert_eq!(walk.next(), Some((1, 0, &4)));
    assert_eq!(walk.next(), Some((1, 1, &5)));
    assert_eq!(walk.next(), Some((1, 2, &6)));
    assert_eq!(walk.next(), None);
    assert_eq!(walk.next(), None);
}

#[test]
fn a_walk_can_be_started_again() {
    let matrix = Matrix([[7], [8]]);
    let mut first = matrix.iter();
    assert_eq!(first.next(), Some((0, 0, &7)));
    let mut second = matrix.iter();
    assert_eq!(second.next(), Some((0, 0, &7)));
    assert_eq!(second.next(), Some((1, 0, &8)));
    assert_eq!(second.next(), None);
    assert_eq!(first.next(), Some((1, 0, &8)));
    assert_eq!(first.next(), None);
}

#[test]
fn a_matrix_without_elements_yields_nothing() {
    let no_rows: Matrix<i32, 0, 3> = Matrix([]);
    assert_eq!(no_rows.iter().next(), None);
    let no_columns: Matrix<i32, 3, 0> = Matrix([[], [], []]);
    assert_eq!(no_columns.iter().next(), None);
    let empty: Matrix<i32, 0, 0> = Matrix([]);
    assert_eq!(empty.iter().next(), None);
}

#[test]
fn a_walk_hands_out_every_element_once() {
    let matrix = Matrix([[1, 2], [3, 4], [5, 6]]);
    let mut walk = matrix.iter();
    let mut count = 0;
    let mut sum = 0;
    while let Some((row, col, element)) = walk.next() {
        assert_eq!(*element, matrix[row][col]);
        count += 1;
        sum += *element;
    }
    assert_eq!(count, 6);
    assert_eq!(sum, 21);
}
