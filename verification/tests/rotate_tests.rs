use ttrys::matrix::Matrix;
use ttrys::piece::{Orientation, Piece, Point};
use ttrys::rotate::{generate_bounding_matrix, rotate_clockwise, rotate_counterclockwise, transpose};

#[test]
fn test_rotate_clockwise_smashboy() {
    let origin = Point::new(6, 10);
    let piece = Piece::smashboy(origin);
    let r90 = rotate_clockwise(&piece).unwrap();
    assert_eq!(r90.orientation, Orientation::Two);
    assert_eq!(r90.points, [
        Point::new(6, 10),
        Point::new(7, 10),
        Point::new(6, 11),
        Point::new(7, 11)
    ]);

    let r180 = rotate_clockwise(&r90).unwrap();
    assert_eq!(r180.orientation, Orientation::Three);
    assert_eq!(r180.points, [
        Point::new(6, 10),
        Point::new(7, 10),
        Point::new(6, 11),
        Point::new(7, 11)
    ]);

    let r270 = rotate_clockwise(&r180).unwrap();
    assert_eq!(r270.orientation, Orientation::Four);
    assert_eq!(r270.points, [
        Point::new(6, 10),
        Point::new(7, 10),
        Point::new(6, 11),
        Point::new(7, 11)
    ]);

    let r360 = rotate_clockwise(&r270).unwrap();
    assert_eq!(r360.orientation, Orientation::One);
    assert_eq!(r360.points, [
        Point::new(6, 10),
        Point::new(7, 10),
        Point::new(6, 11),
        Point::new(7, 11)
    ]);
}

#[test]
fn test_rotate_counterclockwise_smashboy() {
    let origin = Point::new(6, 10);
    let piece = Piece::smashboy(origin);
    let r90 = rotate_counterclockwise(&piece).unwrap();
    assert_eq!(r90.orientation, Orientation::Four);
    assert_eq!(r90.points, [
        Point::new(6, 10),
        Point::new(7, 10),
        Point::new(6, 11),
        Point::new(7, 11)
    ]);

    let r180 = rotate_counterclockwise(&r90).unwrap();
    assert_eq!(r180.orientation, Orientation::Three);
    assert_eq!(r180.points, [
        Point::new(6, 10),
        Point::new(7, 10),
        Point::new(6, 11),
        Point::new(7, 11)
    ]);

    let r270 = rotate_counterclockwise(&r180).unwrap();
    assert_eq!(r270.orientation, Orientation::Two);
    assert_eq!(r270.points, [
        Point::new(6, 10),
        Point::new(7, 10),
        Point::new(6, 11),
        Point::new(7, 11)
    ]);

    let r360 = rotate_counterclockwise(&r270).unwrap();
    assert_eq!(r360.orientation, Orientation::One);
    assert_eq!(r360.points, [
        Point::new(6, 10),
        Point::new(7, 10),
        Point::new(6, 11),
        Point::new(7, 11)
    ]);
}

#[test]
fn test_rotate_clockwise_hero() {
    let origin = Point::new(6, 10);
    let piece = Piece::hero(origin);
    let r90 = rotate_clockwise(&piece).unwrap();
    assert_eq!(r90.orientation, Orientation::Two);
    assert_eq!(r90.points, [
        Point::new(8, 9),
        Point::new(8, 10),
        Point::new(8, 11),
        Point::new(8, 12)
    ]);

    let r180 = rotate_clockwise(&r90).unwrap();
    assert_eq!(r180.orientation, Orientation::Three);
    assert_eq!(r180.points, [
        Point::new(6, 10),
        Point::new(7, 10),
        Point::new(8, 10),
        Point::new(9, 10)
    ]);

    let r270 = rotate_clockwise(&r180).unwrap();
    assert_eq!(r270.orientation, Orientation::Four);
    assert_eq!(r270.points, [
        Point::new(8, 9),
        Point::new(8, 10),
        Point::new(8, 11),
        Point::new(8, 12)
    ]);

    let r360 = rotate_clockwise(&r270).unwrap();
    assert_eq!(r360.orientation, Orientation::One);
    assert_eq!(r360.points, [
        Point::new(6, 10),
        Point::new(7, 10),
        Point::new(8, 10),
        Point::new(9, 10)
    ]);
}

#[test]
fn test_rotate_counterclockwise_hero() {
    let origin = Point::new(6, 10);
    let piece = Piece::hero(origin);
    let r90 = rotate_counterclockwise(&piece).unwrap();
    assert_eq!(r90.orientation, Orientation::Four);
    assert_eq!(r90.points, [
        Point::new(8, 9),
        Point::new(8, 10),
        Point::new(8, 11),
        Point::new(8, 12)
    ]);

    let r180 = rotate_counterclockwise(&r90).unwrap();
    assert_eq!(r180.orientation, Orientation::Three);
    assert_eq!(r180.points, [
        Point::new(6, 10),
        Point::new(7, 10),
        Point::new(8, 10),
        Point::new(9, 10)
    ]);

    let r270 = rotate_counterclockwise(&r180).unwrap();
    assert_eq!(r270.orientation, Orientation::Two);
    assert_eq!(r270.points, [
        Point::new(8, 9),
        Point::new(8, 10),
        Point::new(8, 11),
        Point::new(8, 12)
    ]);

    let r360 = rotate_counterclockwise(&r270).unwrap();
    assert_eq!(r360.orientation, Orientation::One);
    assert_eq!(r360.points, [
        Point::new(6, 10),
        Point::new(7, 10),
        Point::new(8, 10),
        Point::new(9, 10)
    ]);
}

#[test]
fn test_rotate_clockwise_rhode_island_z() {
    let origin = Point::new(6, 10);
    let piece = Piece::rhode_island_z(origin);
    let r90 = rotate_clockwise(&piece).unwrap();
    assert_eq!(r90.orientation, Orientation::Two);
    assert_eq!(r90.points, [
        Point::new(8, 10),
        Point::new(7, 11),
        Point::new(8, 11),
        Point::new(7, 12)
    ]);

    let r180 = rotate_clockwise(&r90).unwrap();
    assert_eq!(r180.orientation, Orientation::Three);
    assert_eq!(r180.points, [
        Point::new(6, 10),
        Point::new(7, 10),
        Point::new(7, 11),
        Point::new(8, 11),
    ]);

    let r270 = rotate_clockwise(&r180).unwrap();
    assert_eq!(r270.orientation, Orientation::Four);
    assert_eq!(r270.points, [
        Point::new(8, 10),
        Point::new(7, 11),
        Point::new(8, 11),
        Point::new(7, 12)
    ]);

    let r360 = rotate_clockwise(&r270).unwrap();
    assert_eq!(r360.orientation, Orientation::One);
    assert_eq!(r360.points, [
        Point::new(6, 10),
        Point::new(7, 10),
        Point::new(7, 11),
        Point::new(8, 11),
    ]);
}

#[test]
fn test_rotate_counterclockwise_rhode_island_z() {
    let origin = Point::new(6, 10);
    let piece = Piece::rhode_island_z(origin);
    let r90 = rotate_counterclockwise(&piece).unwrap();
    assert_eq!(r90.orientation, Orientation::Four);
    assert_eq!(r90.points, [
        Point::new(8, 10),
        Point::new(7, 11),
        Point::new(8, 11),
        Point::new(7, 12)
    ]);

    let r180 = rotate_counterclockwise(&r90).unwrap();
    assert_eq!(r180.orientation, Orientation::Three);
    assert_eq!(r180.points, [
        Point::new(6, 10),
        Point::new(7, 10),
        Point::new(7, 11),
        Point::new(8, 11),
    ]);

    let r270 = rotate_counterclockwise(&r180).unwrap();
    assert_eq!(r270.orientation, Orientation::Two);
    assert_eq!(r270.points, [
        Point::new(8, 10),
        Point::new(7, 11),
        Point::new(8, 11),
        Point::new(7, 12)
    ]);

    let r360 = rotate_counterclockwise(&r270).unwrap();
    assert_eq!(r360.orientation, Orientation::One);
    assert_eq!(r360.points, [
        Point::new(6, 10),
        Point::new(7, 10),
        Point::new(7, 11),
        Point::new(8, 11),
    ]);
}

#[test]
fn test_rotate_clockwise_cleveland_z() {
    let origin = Point::new(6, 10);
    let piece = Piece::cleveland_z(origin);
    let r90 = rotate_clockwise(&piece).unwrap();
    assert_eq!(r90.orientation, Orientation::Two);
    assert_eq!(r90.points, [
        Point::new(7, 10),
        Point::new(7, 11),
        Point::new(8, 11),
        Point::new(8, 12)
    ]);

    let r180 = rotate_clockwise(&r90).unwrap();
    assert_eq!(r180.orientation, Orientation::Three);
    assert_eq!(r180.points, [
        Point::new(7, 10),
        Point::new(8, 10),
        Point::new(6, 11),
        Point::new(7, 11)
    ]);

    let r270 = rotate_clockwise(&r180).unwrap();
    assert_eq!(r270.orientation, Orientation::Four);
    assert_eq!(r270.points, [
        Point::new(7, 10),
        Point::new(7, 11),
        Point::new(8, 11),
        Point::new(8, 12)
    ]);

    let r360 = rotate_clockwise(&r270).unwrap();
    assert_eq!(r360.orientation, Orientation::One);
    assert_eq!(r360.points, [
        Point::new(7, 10),
        Point::new(8, 10),
        Point::new(6, 11),
        Point::new(7, 11)
    ]);
}

#[test]
fn test_rotate_counterclockwise_cleveland_z() {
    let origin = Point::new(6, 10);
    let piece = Piece::cleveland_z(origin);
    let r90 = rotate_counterclockwise(&piece).unwrap();
    assert_eq!(r90.orientation, Orientation::Four);
    assert_eq!(r90.points, [
        Point::new(7, 10),
        Point::new(7, 11),
        Point::new(8, 11),
        Point::new(8, 12)
    ]);

    let r180 = rotate_counterclockwise(&r90).unwrap();
    assert_eq!(r180.orientation, Orientation::Three);
    assert_eq!(r180.points, [
        Point::new(7, 10),
        Point::new(8, 10),
        Point::new(6, 11),
        Point::new(7, 11)
    ]);

    let r270 = rotate_counterclockwise(&r180).unwrap();
    assert_eq!(r270.orientation, Orientation::Two);
    assert_eq!(r270.points, [
        Point::new(7, 10),
        Point::new(7, 11),
        Point::new(8, 11),
        Point::new(8, 12)
    ]);

    let r360 = rotate_counterclockwise(&r270).unwrap();
    assert_eq!(r360.orientation, Orientation::One);
    assert_eq!(r360.points, [
        Point::new(7, 10),
        Point::new(8, 10),
        Point::new(6, 11),
        Point::new(7, 11)
    ]);
}

#[test]
fn test_rotate_clockwise_teewee() {
    let origin = Point::new(6, 10);
    let piece = Piece::teewee(origin);
    let r90 = rotate_clockwise(&piece).unwrap();
    assert_eq!(r90.orientation, Orientation::Two);
    assert_eq!(r90.points, [
        Point::new(7, 10),
        Point::new(6, 11),
        Point::new(7, 11),
        Point::new(7, 12)
    ]);

    let r180 = rotate_clockwise(&r90).unwrap();
    assert_eq!(r180.orientation, Orientation::Three);
    assert_eq!(r180.points, [
        Point::new(6, 11),
        Point::new(7, 11),
        Point::new(8, 11),
        Point::new(7, 12)
    ]);

    let r270 = rotate_clockwise(&r180).unwrap();
    assert_eq!(r270.orientation, Orientation::Four);
    assert_eq!(r270.points, [
        Point::new(7, 10),
        Point::new(7, 11),
        Point::new(8, 11),
        Point::new(7, 12)
    ]);

    let r360 = rotate_clockwise(&r270).unwrap();
    assert_eq!(r360.orientation, Orientation::One);
    assert_eq!(r360.points, [
        Point::new(7, 10),
        Point::new(6, 11),
        Point::new(7, 11),
        Point::new(8, 11)
    ]);
}

#[test]
fn test_rotate_counterclockwise_teewee() {
    let origin = Point::new(6, 10);
    let piece = Piece::teewee(origin);
    let r90 = rotate_counterclockwise(&piece).unwrap();
    assert_eq!(r90.orientation, Orientation::Four);
    assert_eq!(r90.points, [
        Point::new(7, 10),
        Point::new(7, 11),
        Point::new(8, 11),
        Point::new(7, 12)
    ]);

    let r180 = rotate_counterclockwise(&r90).unwrap();
    assert_eq!(r180.orientation, Orientation::Three);
    assert_eq!(r180.points, [
        Point::new(6, 11),
        Point::new(7, 11),
        Point::new(8, 11),
        Point::new(7, 12)
    ]);

    let r270 = rotate_counterclockwise(&r180).unwrap();
    assert_eq!(r270.orientation, Orientation::Two);
    assert_eq!(r270.points, [
        Point::new(7, 10),
        Point::new(6, 11),
        Point::new(7, 11),
        Point::new(7, 12)
    ]);

    let r360 = rotate_counterclockwise(&r270).unwrap();
    assert_eq!(r360.orientation, Orientation::One);
    assert_eq!(r360.points, [
        Point::new(7, 10),
        Point::new(6, 11),
        Point::new(7, 11),
        Point::new(8, 11)
    ]);
}

#[test]
fn test_rotate_clockwise_blue_ricky() {
    let origin = Point::new(6, 10);
    let piece = Piece::blue_ricky(origin);
    let r90 = rotate_clockwise(&piece).unwrap();
    assert_eq!(r90.orientation, Orientation::Two);
    assert_eq!(r90.points, [
        Point::new(6, 10),
        Point::new(7, 10),
        Point::new(7, 11),
        Point::new(7, 12)
    ]);

    let r180 = rotate_clockwise(&r90).unwrap();
    assert_eq!(r180.orientation, Orientation::Three);
    assert_eq!(r180.points, [
        Point::new(6, 11),
        Point::new(7, 11),
        Point::new(8, 11),
        Point::new(6, 12)
    ]);

    let r270 = rotate_clockwise(&r180).unwrap();
    assert_eq!(r270.orientation, Orientation::Four);
    assert_eq!(r270.points, [
        Point::new(7, 10),
        Point::new(7, 11),
        Point::new(7, 12),
        Point::new(8, 12)
    ]);

    let r360 = rotate_clockwise(&r270).unwrap();
    assert_eq!(r360.orientation, Orientation::One);
    assert_eq!(r360.points, [
        Point::new(8, 10),
        Point::new(6, 11),
        Point::new(7, 11),
        Point::new(8, 11)
    ]);
}

#[test]
fn test_rotate_counterclockwise_blue_ricky() {
    let origin = Point::new(6, 10);
    let piece = Piece::blue_ricky(origin);
    let r90 = rotate_counterclockwise(&piece).unwrap();
    assert_eq!(r90.orientation, Orientation::Four);
    assert_eq!(r90.points, [
        Point::new(7, 10),
        Point::new(7, 11),
        Point::new(7, 12),
        Point::new(8, 12)
    ]);

    let r180 = rotate_counterclockwise(&r90).unwrap();
    assert_eq!(r180.orientation, Orientation::Three);
    assert_eq!(r180.points, [
        Point::new(6, 11),
        Point::new(7, 11),
        Point::new(8, 11),
        Point::new(6, 12)
    ]);

    let r270 = rotate_counterclockwise(&r180).unwrap();
    assert_eq!(r270.orientation, Orientation::Two);
    assert_eq!(r270.points, [
        Point::new(6, 10),
        Point::new(7, 10),
        Point::new(7, 11),
        Point::new(7, 12)
    ]);

    let r360 = rotate_counterclockwise(&r270).unwrap();
    assert_eq!(r360.orientation, Orientation::One);
    assert_eq!(r360.points, [
        Point::new(8, 10),
        Point::new(6, 11),
        Point::new(7, 11),
        Point::new(8, 11)
    ]);
}

#[test]
fn rotate_test_rotate_clockwise_orange_ricky() {
    let origin = Point::new(6, 10);
    let piece = Piece::orange_ricky(origin);
    let r90 = rotate_clockwise(&piece).unwrap();
    assert_eq!(r90.orientation, Orientation::Two);
    assert_eq!(r90.points, [
        Point::new(7, 10),
        Point::new(7, 11),
        Point::new(6, 12),
        Point::new(7, 12),
    ]);

    let r180 = rotate_clockwise(&r90).unwrap();
    assert_eq!(r180.orientation, Orientation::Three);
    assert_eq!(r180.points, [
        Point::new(6, 11),
        Point::new(7, 11),
        Point::new(8, 11),
        Point::new(8, 12),
    ]);

    let r270 = rotate_clockwise(&r180).unwrap();
    assert_eq!(r270.orientation, Orientation::Four);
    assert_eq!(r270.points, [
        Point::new(7, 10),
        Point::new(8, 10),
        Point::new(7, 11),
        Point::new(7, 12),
    ]);

    let r360 = rotate_clockwise(&r270).unwrap();
    assert_eq!(r360.orientation, Orientation::One);
    assert_eq!(r360.points, [
        Point::new(6, 10),
        Point::new(6, 11),
        Point::new(7, 11),
        Point::new(8, 11),
    ])
}

    #[test]
fn test_rotate_counterclockwise_orange_ricky() {
    let origin = Point::new(6, 10);
    let piece = Piece::orange_ricky(origin);
    let r90 = rotate_counterclockwise(&piece).unwrap();
    assert_eq!(r90.orientation, Orientation::Four);
    assert_eq!(r90.points, [
        Point::new(7, 10),
        Point::new(8, 10),
        Point::new(7, 11),
        Point::new(7, 12),
    ]);

    let r180 = rotate_counterclockwise(&r90).unwrap();
    assert_eq!(r180.orientation, Orientation::Three);
    assert_eq!(r180.points, [
        Point::new(6, 11),
        Point::new(7, 11),
        Point::new(8, 11),
        Point::new(8, 12),
    ]);

    let r270 = rotate_counterclockwise(&r180).unwrap();
    assert_eq!(r270.orientation, Orientation::Two);
    assert_eq!(r270.points, [
        Point::new(7, 10),
        Point::new(7, 11),
        Point::new(6, 12),
        Point::new(7, 12),
    ]);

    let r360 = rotate_counterclockwise(&r270).unwrap();
    assert_eq!(r360.orientation, Orientation::One);
    assert_eq!(r360.points, [
        Point::new(6, 10),
        Point::new(6, 11),
        Point::new(7, 11),
        Point::new(8, 11),
    ]);
}


#[test]
fn rotate_test_generate_bounding_matrix_orange_ricky() {
    let origin = Point::new(6, 10);
    let piece = Piece::orange_ricky(origin);
    let matrix = generate_bounding_matrix(&piece);
    assert_eq!(matrix.width(), 3);
    assert_eq!(matrix.height(), 2);
    assert_eq!(matrix.get(0, 0), Some(1));
    assert_eq!(matrix.get(1, 0), Some(0));
    assert_eq!(matrix.get(2, 0), Some(0));
    assert_eq!(matrix.get(0, 1), Some(2));
    assert_eq!(matrix.get(1, 1), Some(3));
    assert_eq!(matrix.get(2, 1), Some(4));
}

#[test]
fn rotate_test_transpose() {
    let mut matrix = Matrix::new(3, 3, 0);

    let mut val: usize = 0;
    for y in 0..=2 {
        for x in 0..=2 {
            val += 1;
            matrix.set(x, y, val);
        }
    }

    assert_eq!(matrix.get(0, 0), Some(1));
    assert_eq!(matrix.get(1, 0), Some(2));
    assert_eq!(matrix.get(2, 0), Some(3));
    assert_eq!(matrix.get(0, 1), Some(4));
    assert_eq!(matrix.get(1, 1), Some(5));
    assert_eq!(matrix.get(2, 1), Some(6));
    assert_eq!(matrix.get(0, 2), Some(7));
    assert_eq!(matrix.get(1, 2), Some(8));
    assert_eq!(matrix.get(2, 2), Some(9));

    let transposed = transpose(matrix);

    assert_eq!(transposed.get(0, 0), Some(9));
    assert_eq!(transposed.get(1, 0), Some(6));
    assert_eq!(transposed.get(2, 0), Some(3));
    assert_eq!(transposed.get(0, 1), Some(8));
    assert_eq!(transposed.get(1, 1), Some(5));
    assert_eq!(transposed.get(2, 1), Some(2));
    assert_eq!(transposed.get(0, 2), Some(7));
    assert_eq!(transposed.get(1, 2), Some(4));
    assert_eq!(transposed.get(2, 2), Some(1));
}
