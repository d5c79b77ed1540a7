//! Piece geometry: grid points, the seven tetromino shapes, the cyclic
//! orientation state, and the candidate translations of a falling piece.

use vstd::prelude::*;
use crate::random::random_below;

verus! {

/// A grid coordinate; `x` grows to the right, `y` grows upward, row 0 is the
/// bottom of the board.
#[derive(Debug, Eq, PartialEq, Ord, PartialOrd, Clone, Copy, Structural)]
pub struct Point {
    pub x: usize,
    pub y: usize,
}

impl Point {
    /// The point as a mathematical pair.
    pub open spec fn sp(self) -> (int, int) {
        (self.x as int, self.y as int)
    }

    pub fn new(x: usize, y: usize) -> (p: Point)
        ensures
            p.x == x,
            p.y == y,
    {
        Point { x, y }
    }
}

#[derive(Debug, Eq, PartialEq, Clone, Copy, Structural)]
pub enum Shape {
    OrangeRicky,
    BlueRicky,
    ClevelandZ,
    RhodeIslandZ,
    Hero,
    Teewee,
    Smashboy,
}

/// One of the four rotation states of a piece; `next` and `prev` cycle with
/// wrap-around, no orientation is terminal.
#[derive(Debug, Eq, PartialEq, Clone, Copy, Structural)]
pub enum Orientation {
    One,
    Two,
    Three,
    Four,
}

pub open spec fn next_orientation(o: Orientation) -> Orientation {
    match o {
        Orientation::One => Orientation::Two,
        Orientation::Two => Orientation::Three,
        Orientation::Three => Orientation::Four,
        Orientation::Four => Orientation::One,
    }
}

pub open spec fn prev_orientation(o: Orientation) -> Orientation {
    match o {
        Orientation::One => Orientation::Four,
        Orientation::Two => Orientation::One,
        Orientation::Three => Orientation::Two,
        Orientation::Four => Orientation::Three,
    }
}

impl Orientation {
    pub fn next(&self) -> (o: Orientation)
        ensures
            o == next_orientation(*self),
    {
        match self {
            Orientation::One => Orientation::Two,
            Orientation::Two => Orientation::Three,
            Orientation::Three => Orientation::Four,
            Orientation::Four => Orientation::One,
        }
    }

    pub fn prev(&self) -> (o: Orientation)
        ensures
            o == prev_orientation(*self),
    {
        match self {
            Orientation::One => Orientation::Four,
            Orientation::Two => Orientation::One,
            Orientation::Three => Orientation::Two,
            Orientation::Four => Orientation::Three,
        }
    }
}

/// A falling tetromino: a shape tag, the current orientation, and the four
/// absolute board cells the piece occupies.
#[derive(Debug, Clone, Copy)]
pub struct Piece {
    pub shape: Shape,
    pub orientation: Orientation,
    pub points: [Point; 4],
}

/// The canonical cells of a freshly spawned `shape` whose lower-left bounding
/// corner is `origin`, listed bottom-to-top and left-to-right.
pub open spec fn spawn_points(shape: Shape, origin: Point) -> Seq<(int, int)> {
    let x = origin.x as int;
    let y = origin.y as int;
    match shape {
        Shape::OrangeRicky => seq![(x, y), (x, y + 1), (x + 1, y + 1), (x + 2, y + 1)],
        Shape::BlueRicky => seq![(x + 2, y), (x, y + 1), (x + 1, y + 1), (x + 2, y + 1)],
        Shape::ClevelandZ => seq![(x + 1, y), (x + 2, y), (x, y + 1), (x + 1, y + 1)],
        Shape::RhodeIslandZ => seq![(x, y), (x + 1, y), (x + 1, y + 1), (x + 2, y + 1)],
        Shape::Hero => seq![(x, y), (x + 1, y), (x + 2, y), (x + 3, y)],
        Shape::Teewee => seq![(x + 1, y), (x, y + 1), (x + 1, y + 1), (x + 2, y + 1)],
        Shape::Smashboy => seq![(x, y), (x + 1, y), (x, y + 1), (x + 1, y + 1)],
    }
}

/// Whether `p` is exactly the spawn-state piece of its shape at `origin`.
pub open spec fn is_spawn_of(p: Piece, origin: Point) -> bool {
    &&& p.orientation == Orientation::One
    &&& p.pts() == spawn_points(p.shape, origin)
}

pub open spec fn min2(a: int, b: int) -> int {
    if a <= b {
        a
    } else {
        b
    }
}

pub open spec fn max2(a: int, b: int) -> int {
    if a >= b {
        a
    } else {
        b
    }
}

impl Piece {
    /// The four occupied cells as mathematical pairs, in stored order.
    pub open spec fn pts(self) -> Seq<(int, int)> {
        self.points@.map_values(|p: Point| p.sp())
    }

    /// Leftmost occupied column.
    pub open spec fn lo_x(self) -> int {
        min2(
            min2(self.points@[0].x as int, self.points@[1].x as int),
            min2(self.points@[2].x as int, self.points@[3].x as int),
        )
    }

    /// Bottom occupied row.
    pub open spec fn lo_y(self) -> int {
        min2(
            min2(self.points@[0].y as int, self.points@[1].y as int),
            min2(self.points@[2].y as int, self.points@[3].y as int),
        )
    }

    /// Rightmost occupied column.
    pub open spec fn hi_x(self) -> int {
        max2(
            max2(self.points@[0].x as int, self.points@[1].x as int),
            max2(self.points@[2].x as int, self.points@[3].x as int),
        )
    }

    /// Top occupied row.
    pub open spec fn hi_y(self) -> int {
        max2(
            max2(self.points@[0].y as int, self.points@[1].y as int),
            max2(self.points@[2].y as int, self.points@[3].y as int),
        )
    }

    /// No two of the four cells coincide.
    pub open spec fn pts_distinct(self) -> bool {
        forall|i: int, j: int|
            0 <= i < j < 4 ==> self.pts()[i] != self.pts()[j]
    }

    pub fn new(shape: Shape, points: [Point; 4]) -> (p: Piece)
        ensures
            p.shape == shape,
            p.points == points,
            p.orientation == Orientation::One,
    {
        Piece { shape, points, orientation: Orientation::One }
    }

    /// Spawns a piece of a shape chosen at random, anchored at `origin`.
    pub fn random(origin: Point) -> (p: Piece)
        requires
            origin.x + 3 <= usize::MAX,
            origin.y + 1 <= usize::MAX,
        ensures
            is_spawn_of(p, origin),
    {
        let which = random_below(7);
        match which {
            0 => Self::orange_ricky(origin),
            1 => Self::blue_ricky(origin),
            2 => Self::cleveland_z(origin),
            3 => Self::rhode_island_z(origin),
            4 => Self::hero(origin),
            5 => Self::teewee(origin),
            _ => Self::smashboy(origin),
        }
    }

    //
    // [][][]
    // []
    //
    pub fn orange_ricky(origin: Point) -> (p: Piece)
        requires
            origin.x + 2 <= usize::MAX,
            origin.y + 1 <= usize::MAX,
        ensures
            p.shape == Shape::OrangeRicky,
            p.orientation == Orientation::One,
            p.pts() =~= spawn_points(Shape::OrangeRicky, origin),
    {
        let points = [
            Point::new(origin.x, origin.y),
            Point::new(origin.x, origin.y + 1),
            Point::new(origin.x + 1, origin.y + 1),
            Point::new(origin.x + 2, origin.y + 1),
        ];
        Self::new(Shape::OrangeRicky, points)
    }

    //
    // [][][]
    //     []
    //
    pub fn blue_ricky(origin: Point) -> (p: Piece)
        requires
            origin.x + 2 <= usize::MAX,
            origin.y + 1 <= usize::MAX,
        ensures
            p.shape == Shape::BlueRicky,
            p.orientation == Orientation::One,
            p.pts() =~= spawn_points(Shape::BlueRicky, origin),
    {
        let points = [
            Point::new(origin.x + 2, origin.y),
            Point::new(origin.x, origin.y + 1),
            Point::new(origin.x + 1, origin.y + 1),
            Point::new(origin.x + 2, origin.y + 1),
        ];
        Self::new(Shape::BlueRicky, points)
    }

    //
    // [][]
    //   [][]
    //
    pub fn cleveland_z(origin: Point) -> (p: Piece)
        requires
            origin.x + 2 <= usize::MAX,
            origin.y + 1 <= usize::MAX,
        ensures
            p.shape == Shape::ClevelandZ,
            p.orientation == Orientation::One,
            p.pts() =~= spawn_points(Shape::ClevelandZ, origin),
    {
        let points = [
            Point::new(origin.x + 1, origin.y),
            Point::new(origin.x + 2, origin.y),
            Point::new(origin.x, origin.y + 1),
            Point::new(origin.x + 1, origin.y + 1),
        ];
        Self::new(Shape::ClevelandZ, points)
    }

    //
    //   [][]
    // [][]
    //
    pub fn rhode_island_z(origin: Point) -> (p: Piece)
        requires
            origin.x + 2 <= usize::MAX,
            origin.y + 1 <= usize::MAX,
        ensures
            p.shape == Shape::RhodeIslandZ,
            p.orientation == Orientation::One,
            p.pts() =~= spawn_points(Shape::RhodeIslandZ, origin),
    {
        let points = [
            Point::new(origin.x, origin.y),
            Point::new(origin.x + 1, origin.y),
            Point::new(origin.x + 1, origin.y + 1),
            Point::new(origin.x + 2, origin.y + 1),
        ];
        Self::new(Shape::RhodeIslandZ, points)
    }

    //
    // [][][][]
    //
    pub fn hero(origin: Point) -> (p: Piece)
        requires
            origin.x + 3 <= usize::MAX,
        ensures
            p.shape == Shape::Hero,
            p.orientation == Orientation::One,
            p.pts() =~= spawn_points(Shape::Hero, origin),
    {
        let points = [
            Point::new(origin.x, origin.y),
            Point::new(origin.x + 1, origin.y),
            Point::new(origin.x + 2, origin.y),
            Point::new(origin.x + 3, origin.y),
        ];
        Self::new(Shape::Hero, points)
    }

    //
    // [][][]
    //   []
    //
    pub fn teewee(origin: Point) -> (p: Piece)
        requires
            origin.x + 2 <= usize::MAX,
            origin.y + 1 <= usize::MAX,
        ensures
            p.shape == Shape::Teewee,
            p.orientation == Orientation::One,
            p.pts() =~= spawn_points(Shape::Teewee, origin),
    {
        let points = [
            Point::new(origin.x + 1, origin.y),
            Point::new(origin.x, origin.y + 1),
            Point::new(origin.x + 1, origin.y + 1),
            Point::new(origin.x + 2, origin.y + 1),
        ];
        Self::new(Shape::Teewee, points)
    }

    //
    // [][]
    // [][]
    //
    pub fn smashboy(origin: Point) -> (p: Piece)
        requires
            origin.x + 1 <= usize::MAX,
            origin.y + 1 <= usize::MAX,
        ensures
            p.shape == Shape::Smashboy,
            p.orientation == Orientation::One,
            p.pts() =~= spawn_points(Shape::Smashboy, origin),
    {
        let points = [
            Point::new(origin.x, origin.y),
            Point::new(origin.x + 1, origin.y),
            Point::new(origin.x, origin.y + 1),
            Point::new(origin.x + 1, origin.y + 1),
        ];
        Self::new(Shape::Smashboy, points)
    }

    /// Candidate for a one-cell move to the left; `None` exactly when the
    /// piece already touches column 0.
    pub fn project_left(&self) -> (r: Option<Piece>)
        ensures
            r is Some <==> (forall|i: int| 0 <= i < 4 ==> self.points@[i].x >= 1),
            r matches Some(q) ==> {
                &&& q.shape == self.shape
                &&& q.orientation == self.orientation
                &&& forall|i: int|
                    0 <= i < 4 ==> q.points@[i] == (Point {
                        x: (self.points@[i].x - 1) as usize,
                        y: self.points@[i].y,
                    })
            },
    {
        if self.points[0].x >= 1 && self.points[1].x >= 1 && self.points[2].x >= 1
            && self.points[3].x >= 1 {
            let points = [
                Point::new(self.points[0].x - 1, self.points[0].y),
                Point::new(self.points[1].x - 1, self.points[1].y),
                Point::new(self.points[2].x - 1, self.points[2].y),
                Point::new(self.points[3].x - 1, self.points[3].y),
            ];
            Some(Piece { points, shape: self.shape, orientation: self.orientation })
        } else {
            None
        }
    }

    /// Candidate for a one-cell move to the right; `None` exactly when the
    /// piece already touches the rightmost board column.
    pub fn project_right(&self) -> (r: Option<Piece>)
        ensures
            r is Some <==> (forall|i: int| 0 <= i < 4 ==> self.points@[i].x < 9),
            r matches Some(q) ==> {
                &&& q.shape == self.shape
                &&& q.orientation == self.orientation
                &&& forall|i: int|
                    0 <= i < 4 ==> q.points@[i] == (Point {
                        x: (self.points@[i].x + 1) as usize,
                        y: self.points@[i].y,
                    })
            },
    {
        if self.points[0].x < 9 && self.points[1].x < 9 && self.points[2].x < 9
            && self.points[3].x < 9 {
            let points = [
                Point::new(self.points[0].x + 1, self.points[0].y),
                Point::new(self.points[1].x + 1, self.points[1].y),
                Point::new(self.points[2].x + 1, self.points[2].y),
                Point::new(self.points[3].x + 1, self.points[3].y),
            ];
            Some(Piece { points, shape: self.shape, orientation: self.orientation })
        } else {
            None
        }
    }

    /// Candidate for a one-cell descent; `None` exactly when the piece
    /// already touches row 0.
    pub fn project_down(&self) -> (r: Option<Piece>)
        ensures
            r is Some <==> (forall|i: int| 0 <= i < 4 ==> self.points@[i].y >= 1),
            r matches Some(q) ==> {
                &&& q.shape == self.shape
                &&& q.orientation == self.orientation
                &&& forall|i: int|
                    0 <= i < 4 ==> q.points@[i] == (Point {
                        x: self.points@[i].x,
                        y: (self.points@[i].y - 1) as usize,
                    })
            },
    {
        if self.points[0].y >= 1 && self.points[1].y >= 1 && self.points[2].y >= 1
            && self.points[3].y >= 1 {
            let points = [
                Point::new(self.points[0].x, self.points[0].y - 1),
                Point::new(self.points[1].x, self.points[1].y - 1),
                Point::new(self.points[2].x, self.points[2].y - 1),
                Point::new(self.points[3].x, self.points[3].y - 1),
            ];
            Some(Piece { points, shape: self.shape, orientation: self.orientation })
        } else {
            None
        }
    }

    /// Candidate for a clockwise rotation; `None` exactly when the offset
    /// table gives no anchor for the rotated piece.
    pub fn project_clockwise_rotation(&self) -> (r: Option<Piece>)
        requires
            self.pts_distinct(),
            self.hi_x() + self.hi_y() + 4 <= usize::MAX,
        ensures
            r is Some <==> crate::rotate::cw_offset(
                self.shape,
                self.orientation,
                self.lo_x(),
                self.lo_y(),
            ) is Some,
            r matches Some(q) ==> {
                &&& q.shape == self.shape
                &&& q.orientation == next_orientation(self.orientation)
                &&& crate::rotate::strictly_sorted_yx(q.pts())
                &&& q.pts_distinct()
                &&& (crate::rotate::cw_offset(
                    self.shape,
                    self.orientation,
                    self.lo_x(),
                    self.lo_y(),
                ) matches Some(off) ==> (forall|p: (int, int)|
                    q.pts().contains(p) <==> crate::rotate::cw_images(
                        *self,
                        off.0,
                        off.1,
                    ).contains(p)))
            },
    {
        crate::rotate::rotate_clockwise(self)
    }

    /// Candidate for a counter-clockwise rotation; `None` exactly when the
    /// offset table gives no anchor for the rotated piece.
    pub fn project_counterclockwise_rotation(&self) -> (r: Option<Piece>)
        requires
            self.pts_distinct(),
            self.hi_x() + self.hi_y() + 4 <= usize::MAX,
        ensures
            r is Some <==> crate::rotate::ccw_offset(
                self.shape,
                self.orientation,
                self.lo_x(),
                self.lo_y(),
            ) is Some,
            r matches Some(q) ==> {
                &&& q.shape == self.shape
                &&& q.orientation == prev_orientation(self.orientation)
                &&& crate::rotate::strictly_sorted_yx(q.pts())
                &&& q.pts_distinct()
                &&& (crate::rotate::ccw_offset(
                    self.shape,
                    self.orientation,
                    self.lo_x(),
                    self.lo_y(),
                ) matches Some(off) ==> (forall|p: (int, int)|
                    q.pts().contains(p) <==> crate::rotate::ccw_images(
                        *self,
                        off.0,
                        off.1,
                    ).contains(p)))
            },
    {
        crate::rotate::rotate_counterclockwise(self)
    }

    /// The lower-left and upper-right corners of the piece's bounding box.
    pub fn bounds(&self) -> (r: (Point, Point))
        ensures
            r.0.x == self.lo_x(),
            r.0.y == self.lo_y(),
            r.1.x == self.hi_x(),
            r.1.y == self.hi_y(),
    {
        let mut min_x = self.points[0].x;
        let mut max_x = self.points[0].x;
        let mut min_y = self.points[0].y;
        let mut max_y = self.points[0].y;
        if self.points[1].x < min_x {
            min_x = self.points[1].x;
        }
        if self.points[2].x < min_x {
            min_x = self.points[2].x;
        }
        if self.points[3].x < min_x {
            min_x = self.points[3].x;
        }
        if self.points[1].x > max_x {
            max_x = self.points[1].x;
        }
        if self.points[2].x > max_x {
            max_x = self.points[2].x;
        }
        if self.points[3].x > max_x {
            max_x = self.points[3].x;
        }
        if self.points[1].y < min_y {
            min_y = self.points[1].y;
        }
        if self.points[2].y < min_y {
            min_y = self.points[2].y;
        }
        if self.points[3].y < min_y {
            min_y = self.points[3].y;
        }
        if self.points[1].y > max_y {
            max_y = self.points[1].y;
        }
        if self.points[2].y > max_y {
            max_y = self.points[2].y;
        }
        if self.points[3].y > max_y {
            max_y = self.points[3].y;
        }
        (Point::new(min_x, min_y), Point::new(max_x, max_y))
    }
}

} // verus!
