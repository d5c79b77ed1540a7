use ttrys::matrix::{Cell, Color, Matrix};
use ttrys::piece::{Piece, Point};
use ttrys::scoring::RowsCleared;

#[test]
fn matrix_test_set() {
    let mut matrix = Matrix::empty();
    let r1 = matrix.set(0, 0, Cell::black(1)).unwrap();
    let r2 = matrix.set(0, 0, Cell::black(1)).unwrap();
    assert_eq!(r1.value, Color::White);
    assert_eq!(r2.value, Color::Black);
}

#[test]
fn matrix_test_get() {
    let mut matrix = Matrix::empty();
    matrix.set(1, 1, Cell::black(1));
    assert_eq!(matrix.get(1, 1).unwrap().value, Color::Black);
}

#[test]
fn test_apply_out_of_bounds() {
    let mut matrix = Matrix::empty();
    let piece = Piece::hero(Point::new(7, 0));
    assert!(matrix.apply(piece, 1).is_none());
}

#[test]
fn test_apply_success() {
    let mut matrix = Matrix::empty();
    let origin = Point::new(4, 18);
    let piece = Piece::rhode_island_z(origin);
    let mut expected = Matrix::empty();
    expected.set(4, 18, Cell::gray(1));
    expected.set(5, 18, Cell::gray(1));
    expected.set(5, 19, Cell::gray(1));
    expected.set(6, 19, Cell::gray(1));
    assert_eq!(*matrix.apply(piece, 1).unwrap(), expected);
}

#[test]
fn test_apply_out_of_bounds_x() {
    let mut matrix = Matrix::empty();
    let origin = Point::new(8, 18);
    let piece = Piece::rhode_island_z(origin);
    assert!(matrix.apply(piece, 1).is_none());
}

#[test]
fn matrix_test_accept_out_of_bounds_y() {
    let mut matrix = Matrix::empty();
    let origin = Point::new(4, 19);
    let piece = Piece::rhode_island_z(origin);
    assert!(matrix.apply(piece, 1).is_none());
}

#[test]
fn matrix_test_accept_collision() {
    let mut matrix = Matrix::empty();
    matrix.set(5, 18, Cell::black(1));
    let origin = Point::new(4, 18);
    let piece = Piece::rhode_island_z(origin);
    assert!(matrix.apply(piece, 1).is_none());
}

#[test]
fn test_accept_success() {
    let mut matrix = Matrix::empty();
    let origin = Point::new(4, 18);
    let piece = Piece::rhode_island_z(origin);
    let mut expected = Matrix::empty();
    expected.set(4, 18, Cell::gray(1));
    expected.set(5, 18, Cell::gray(1));
    expected.set(5, 19, Cell::gray(1));
    expected.set(6, 19, Cell::gray(1));
    assert_eq!(*matrix.apply(piece, 1).unwrap(), expected);
}

#[test]
fn test_accept_out_of_bounds_x() {
    let mut matrix = Matrix::empty();
    let origin = Point::new(8, 18);
    let piece = Piece::rhode_island_z(origin);
    assert!(matrix.apply(piece, 1).is_none());
}

#[test]
fn test_collision_leaves_board_unchanged() {
    let mut matrix = Matrix::empty();
    matrix.set(5, 18, Cell::black(9));
    matrix.set(0, 0, Cell::gray(3));
    let piece = Piece::rhode_island_z(Point::new(4, 18));
    assert!(matrix.apply(piece, 1).is_none());
    // the locked cell, the overlay, and everything else are untouched
    assert_eq!(matrix.get(5, 18).unwrap(), Cell::black(9));
    assert_eq!(matrix.get(0, 0).unwrap(), Cell::gray(3));
    assert_eq!(matrix.get(4, 18).unwrap(), Cell::white());
}

#[test]
fn test_settle_locks_points() {
    let mut matrix = Matrix::empty();
    let piece = Piece::smashboy(Point::new(2, 3));
    matrix.settle(&piece.points, 7).unwrap();
    assert_eq!(matrix.get(2, 3).unwrap(), Cell::black(7));
    assert_eq!(matrix.get(3, 3).unwrap(), Cell::black(7));
    assert_eq!(matrix.get(2, 4).unwrap(), Cell::black(7));
    assert_eq!(matrix.get(3, 4).unwrap(), Cell::black(7));
}

#[test]
fn test_settle_rejects_locked_cell() {
    let mut matrix = Matrix::empty();
    matrix.set(2, 3, Cell::black(1));
    let piece = Piece::smashboy(Point::new(2, 3));
    assert!(matrix.settle(&piece.points, 7).is_none());
    assert_eq!(matrix.get(3, 3).unwrap(), Cell::white());
}

#[test]
fn test_clear_no_full_rows() {
    let mut matrix = Matrix::empty();
    matrix.set(0, 0, Cell::black(1));
    assert_eq!(matrix.clear_full_rows(), RowsCleared::Zero);
    assert_eq!(matrix.get(0, 0).unwrap(), Cell::black(1));
}

#[test]
fn test_clear_one_row_shifts_rows_down() {
    let mut matrix = Matrix::empty();
    for x in 0..10usize {
        matrix.set(x, 0, Cell::black(2));
    }
    matrix.set(3, 1, Cell::black(5));
    matrix.set(4, 2, Cell::black(6));
    assert_eq!(matrix.clear_full_rows(), RowsCleared::One);
    // the blocks above drop one row and keep their colors
    assert_eq!(matrix.get(3, 0).unwrap(), Cell::black(5));
    assert_eq!(matrix.get(4, 1).unwrap(), Cell::black(6));
    assert_eq!(matrix.get(3, 1).unwrap(), Cell::white());
    assert_eq!(matrix.get(4, 2).unwrap(), Cell::white());
    assert_eq!(matrix.get(0, 0).unwrap(), Cell::white());
}

#[test]
fn test_clear_two_rows() {
    let mut matrix = Matrix::empty();
    for x in 0..10usize {
        matrix.set(x, 0, Cell::black(2));
        matrix.set(x, 2, Cell::black(3));
    }
    matrix.set(9, 1, Cell::black(8));
    matrix.set(0, 3, Cell::black(4));
    assert_eq!(matrix.clear_full_rows(), RowsCleared::Two);
    assert_eq!(matrix.get(9, 0).unwrap(), Cell::black(8));
    assert_eq!(matrix.get(0, 1).unwrap(), Cell::black(4));
    assert_eq!(matrix.get(9, 1).unwrap(), Cell::white());
    assert_eq!(matrix.get(0, 3).unwrap(), Cell::white());
}

#[test]
fn test_clear_four_rows() {
    let mut matrix = Matrix::empty();
    for x in 0..10usize {
        for y in 0..4usize {
            matrix.set(x, y, Cell::black(2));
        }
    }
    assert_eq!(matrix.clear_full_rows(), RowsCleared::Four);
    for y in 0..4usize {
        assert_eq!(matrix.get(0, y).unwrap(), Cell::white());
    }
}

#[test]
fn test_dimensions() {
    let matrix = Matrix::empty();
    assert_eq!(matrix.width(), 10);
    assert_eq!(matrix.height(), 20);
    let square: Matrix<u8> = Matrix::square(3, 0);
    assert_eq!(square.width(), 3);
    assert_eq!(square.height(), 3);
}

#[test]
fn test_random_partial_fill_shape() {
    let matrix = Matrix::random_partial_fill();
    assert_eq!(matrix.height(), 20);
    assert_eq!(matrix.width(), 10);
    for y in 0..20usize {
        for x in 0..10usize {
            let cell = matrix.get(x, y).unwrap();
            if y >= 5 {
                assert_eq!(cell, Cell::white());
            } else {
                assert!(cell == Cell::white() || cell == Cell::black(15));
            }
        }
    }
}
