use ttrys::piece::{Piece, Point};

#[test]
fn test_bounds_orange_ricky() {
    let origin = Point::new(3, 2);
    let piece = Piece::orange_ricky(origin);
    let (lower_left, upper_right) = piece.bounds();

    assert_eq!(lower_left, Point::new(3, 2));
    assert_eq!(upper_right, Point::new(5, 3));
}

#[test]
fn test_bounds_blue_ricky() {
    let origin = Point::new(1, 1);
    let piece = Piece::blue_ricky(origin);
    let (lower_left, upper_right) = piece.bounds();

    assert_eq!(lower_left, Point::new(1, 1));
    assert_eq!(upper_right, Point::new(3, 2));
}

#[test]
fn test_bounds_cleveland_z() {
    let origin = Point::new(1, 1);
    let piece = Piece::cleveland_z(origin);
    let (lower_left, upper_right) = piece.bounds();

    assert_eq!(lower_left, Point::new(1, 1));
    assert_eq!(upper_right, Point::new(3, 2));
}

#[test]
fn test_bounds_rhode_island_z() {
    let origin = Point::new(1, 1);
    let piece = Piece::rhode_island_z(origin);
    let (lower_left, upper_right) = piece.bounds();

    assert_eq!(lower_left, Point::new(1, 1));
    assert_eq!(upper_right, Point::new(3, 2));
}

#[test]
fn test_points_orange_ricky() {
    let origin = Point::new(6, 19);
    let piece = Piece::orange_ricky(origin);
    assert_eq!(
        piece.points,
        [
            Point::new(6, 19),
            Point::new(6, 20),
            Point::new(7, 20),
            Point::new(8, 20)
        ]
    );
}

#[test]
fn test_move_left_orange_ricky() {
    let origin = Point::new(6, 19);
    let piece = Piece::orange_ricky(origin).project_left().unwrap();
    assert_eq!(
        piece.points,
        [
            Point::new(5, 19),
            Point::new(5, 20),
            Point::new(6, 20),
            Point::new(7, 20)
        ]
    );
}

#[test]
fn test_move_right_orange_ricky() {
    let origin = Point::new(6, 19);
    let piece = Piece::orange_ricky(origin).project_right().unwrap();
    assert_eq!(
        piece.points,
        [
            Point::new(7, 19),
            Point::new(7, 20),
            Point::new(8, 20),
            Point::new(9, 20)
        ]
    );
}

#[test]
fn test_move_down_orange_ricky() {
    let origin = Point::new(6, 19);
    let piece = Piece::orange_ricky(origin).project_down().unwrap();
    assert_eq!(
        piece.points,
        [
            Point::new(6, 18),
            Point::new(6, 19),
            Point::new(7, 19),
            Point::new(8, 19)
        ]
    );
}

#[test]
fn test_move_down_from_zero_orange_ricky() {
    let origin = Point::new(6, 19);
    let piece = Piece::orange_ricky(origin).project_down().unwrap();
    assert_eq!(
        piece.points,
        [
            Point::new(6, 18),
            Point::new(6, 19),
            Point::new(7, 19),
            Point::new(8, 19)
        ]
    );
}

#[test]
fn test_points_blue_ricky() {
    let origin = Point::new(6, 19);
    let piece = Piece::blue_ricky(origin);
    assert_eq!(
        piece.points,
        [
            Point::new(8, 19),
            Point::new(6, 20),
            Point::new(7, 20),
            Point::new(8, 20)
        ]
    );
}

#[test]
fn test_points_cleveland_z() {
    let origin = Point::new(5, 18);
    let piece = Piece::cleveland_z(origin);
    assert_eq!(
        piece.points,
        [
            Point::new(6, 18),
            Point::new(7, 18),
            Point::new(5, 19),
            Point::new(6, 19)
        ]
    );
}

#[test]
fn test_points_rhode_island_z() {
    let origin = Point::new(5, 18);
    let piece = Piece::rhode_island_z(origin);
    assert_eq!(
        piece.points,
        [
            Point::new(5, 18),
            Point::new(6, 18),
            Point::new(6, 19),
            Point::new(7, 19)
        ]
    );
}

#[test]
fn test_points_hero() {
    let origin = Point::new(5, 18);
    let piece = Piece::hero(origin);
    assert_eq!(
        piece.points,
        [
            Point::new(5, 18),
            Point::new(6, 18),
            Point::new(7, 18),
            Point::new(8, 18)
        ]
    );
}

#[test]
fn test_points_teewee() {
    let origin = Point::new(5, 18);
    let piece = Piece::teewee(origin);
    assert_eq!(
        piece.points,
        [
            Point::new(6, 18),
            Point::new(5, 19),
            Point::new(6, 19),
            Point::new(7, 19),
        ]
    );
}

#[test]
fn test_points_smashboy() {
    let origin = Point::new(5, 18);
    let piece = Piece::smashboy(origin);
    assert_eq!(
        piece.points,
        [
            Point::new(5, 18),
            Point::new(6, 18),
            Point::new(5, 19),
            Point::new(6, 19)
        ]
    );
}

#[test]
fn test_project_left_at_wall() {
    let piece = Piece::smashboy(Point::new(0, 5));
    assert!(piece.project_left().is_none());
}

#[test]
fn test_project_right_at_wall() {
    let piece = Piece::smashboy(Point::new(8, 5));
    assert!(piece.project_right().is_none());
}

#[test]
fn test_project_down_at_floor() {
    let piece = Piece::hero(Point::new(3, 0));
    assert!(piece.project_down().is_none());
}

#[test]
fn test_random_is_valid_spawn() {
    for _ in 0..50 {
        let origin = Point::new(4, 18);
        let piece = Piece::random(origin);
        let expected = match piece.shape {
            ttrys::piece::Shape::OrangeRicky => Piece::orange_ricky(origin),
            ttrys::piece::Shape::BlueRicky => Piece::blue_ricky(origin),
            ttrys::piece::Shape::ClevelandZ => Piece::cleveland_z(origin),
            ttrys::piece::Shape::RhodeIslandZ => Piece::rhode_island_z(origin),
            ttrys::piece::Shape::Hero => Piece::hero(origin),
            ttrys::piece::Shape::Teewee => Piece::teewee(origin),
            ttrys::piece::Shape::Smashboy => Piece::smashboy(origin),
        };
        assert_eq!(piece.points, expected.points);
        assert_eq!(piece.orientation, ttrys::piece::Orientation::One);
    }
}
