//! The board: a grid of cells with overlay, locking, collision detection and
//! full-row clearing. Row 0 is the bottom row; cell `(x, y)` sits in column
//! `x` of row `y`.

use vstd::prelude::*;
use crate::piece::{Piece, Point};
use crate::scoring::RowsCleared;
use crate::random::random_below;

verus! {

/// Board width in cells.
pub const WIDTH: usize = 10;

/// Board height in cells.
pub const HEIGHT: usize = 20;

/// Occupancy state of a cell. `Gray` marks the overlay of the currently
/// falling piece, `Black` a permanently locked block, `White` an empty cell.
#[derive(Clone, Copy, Debug, Eq, PartialEq, Structural)]
pub enum Color {
    Black,
    White,
    Gray,
}

/// One board cell: its occupancy state and a display color index.
#[derive(Clone, Copy, Debug, Eq, PartialEq, Structural)]
pub struct Cell {
    pub value: Color,
    pub color: u8,
}

/// The cell an empty board position holds.
pub open spec fn white_cell() -> Cell {
    Cell { value: Color::White, color: 15 }
}

impl Cell {
    pub fn black(color: u8) -> (c: Self)
        ensures
            c == (Cell { value: Color::Black, color }),
    {
        Self { value: Color::Black, color }
    }

    pub fn gray(color: u8) -> (c: Self)
        ensures
            c == (Cell { value: Color::Gray, color }),
    {
        Self { value: Color::Gray, color }
    }

    pub fn white() -> (c: Self)
        ensures
            c == white_cell(),
    {
        Self { value: Color::White, color: 15 }
    }
}

/// A rectangular grid stored as rows of cells. The rotation engine uses small
/// `Matrix<usize>` scratch grids; the board itself is a `Matrix<Cell>`.
#[derive(Debug, PartialEq)]
pub struct Matrix<T> {
    pub rows: Vec<Vec<T>>,
}

impl<T> View for Matrix<T> {
    type V = Seq<Seq<T>>;

    open spec fn view(&self) -> Seq<Seq<T>> {
        self.rows@.map_values(|r: Vec<T>| r@)
    }
}

/// All rows of `b` have length `w`.
pub open spec fn rect<T>(b: Seq<Seq<T>>, w: int) -> bool {
    forall|y: int| 0 <= y < b.len() ==> #[trigger] b[y].len() == w
}

impl<T: Copy> Matrix<T> {
    pub fn new(width: usize, height: usize, initial_value: T) -> (m: Self)
        ensures
            m@.len() == height,
            rect(m@, width as int),
            forall|y: int, x: int|
                0 <= y < height && 0 <= x < width ==> m@[y][x] == initial_value,
    {
        let mut rows: Vec<Vec<T>> = Vec::new();
        let mut y: usize = 0;
        while y < height
            invariant
                y <= height,
                rows@.len() == y,
                forall|i: int| 0 <= i < y ==> (#[trigger] rows@[i])@.len() == width,
                forall|i: int, x: int|
                    0 <= i < y && 0 <= x < width ==> rows@[i]@[x] == initial_value,
            decreases height - y,
        {
            let mut row: Vec<T> = Vec::new();
            let mut x: usize = 0;
            while x < width
                invariant
                    x <= width,
                    row@.len() == x,
                    forall|j: int| 0 <= j < x ==> row@[j] == initial_value,
                decreases width - x,
            {
                row.push(initial_value);
                x = x + 1;
            }
            rows.push(row);
            y = y + 1;
        }
        Self { rows }
    }

    /// A square grid of side `length`.
    pub fn square(length: usize, initial_value: T) -> (m: Self)
        ensures
            m@.len() == length,
            rect(m@, length as int),
            forall|y: int, x: int|
                0 <= y < length && 0 <= x < length ==> m@[y][x] == initial_value,
    {
        Self::new(length, length, initial_value)
    }

    /// Bounds-checked read; out-of-range coordinates read as absent.
    pub fn get(&self, x: usize, y: usize) -> (r: Option<T>)
        ensures
            r == (if y < self@.len() && x < self@[y as int].len() {
                Some(self@[y as int][x as int])
            } else {
                None
            }),
    {
        if y < self.rows.len() {
            if x < self.rows[y].len() {
                return Some(self.rows[y][x]);
            }
        }
        None
    }

    /// Bounds-checked write; an out-of-range write changes nothing and is
    /// signalled by `None`, otherwise the previous cell comes back.
    pub fn set(&mut self, x: usize, y: usize, val: T) -> (r: Option<T>)
        ensures
            y < old(self)@.len() && x < old(self)@[y as int].len() ==> {
                &&& r == Some(old(self)@[y as int][x as int])
                &&& final(self)@ == old(self)@.update(
                    y as int,
                    old(self)@[y as int].update(x as int, val),
                )
            },
            !(y < old(self)@.len() && x < old(self)@[y as int].len()) ==> {
                &&& r is None
                &&& final(self)@ == old(self)@
            },
    {
        if y < self.rows.len() {
            if x < self.rows[y].len() {
                let prev = self.rows[y][x];
                self.rows[y][x] = val;
                return Some(prev);
            }
        }
        None
    }

    pub fn width(&self) -> (w: usize)
        requires
            self@.len() >= 1,
        ensures
            w == self@[0].len(),
    {
        self.rows[0].len()
    }

    pub fn height(&self) -> (h: usize)
        ensures
            h == self@.len(),
    {
        self.rows.len()
    }
}

/// `p` names a cell of `b`.
pub open spec fn in_bounds(b: Seq<Seq<Cell>>, p: Point) -> bool {
    p.y < b.len() && p.x < b[p.y as int].len()
}

/// Every point is on the board and free of a locked block. Gray overlay
/// cells do not block: the previous overlay is cleared before a new one is
/// painted.
pub open spec fn pts_ok(b: Seq<Seq<Cell>>, pts: Seq<Point>) -> bool {
    forall|i: int|
        0 <= i < pts.len() ==> {
            &&& in_bounds(b, #[trigger] pts[i])
            &&& b[pts[i].y as int][pts[i].x as int].value != Color::Black
        }
}

/// Some point of `pts` names the cell `(x, y)`.
pub open spec fn has_pt(pts: Seq<Point>, x: int, y: int) -> bool {
    exists|i: int| 0 <= i < pts.len() && #[trigger] pts[i].x == x && pts[i].y == y
}

/// What one cell becomes when the overlay moves to `pts`: the piece's cells
/// turn gray, any old overlay is wiped, everything else is untouched.
pub open spec fn applied_cell(c: Cell, hit: bool, color: u8) -> Cell {
    if hit {
        Cell { value: Color::Gray, color }
    } else if c.value == Color::Gray {
        white_cell()
    } else {
        c
    }
}

/// The board after the falling piece's overlay moves to `pts`.
pub open spec fn board_after_apply(b: Seq<Seq<Cell>>, pts: Seq<Point>, color: u8) -> Seq<
    Seq<Cell>,
> {
    Seq::new(
        b.len(),
        |y: int| Seq::new(b[y].len(), |x: int| applied_cell(b[y][x], has_pt(pts, x, y), color)),
    )
}

/// The board after the cells `pts` lock in place; other cells keep their
/// state, overlay included.
pub open spec fn board_after_settle(b: Seq<Seq<Cell>>, pts: Seq<Point>, color: u8) -> Seq<
    Seq<Cell>,
> {
    Seq::new(
        b.len(),
        |y: int|
            Seq::new(
                b[y].len(),
                |x: int|
                    if has_pt(pts, x, y) {
                        Cell { value: Color::Black, color }
                    } else {
                        b[y][x]
                    },
            ),
    )
}

/// Every cell of the row is locked.
pub open spec fn row_full(r: Seq<Cell>) -> bool {
    forall|x: int| 0 <= x < r.len() ==> r[x].value == Color::Black
}

/// The rows of `b` that are not full, bottom to top, in their original order.
pub open spec fn kept_rows(b: Seq<Seq<Cell>>) -> Seq<Seq<Cell>>
    decreases b.len(),
{
    if b.len() == 0 {
        Seq::empty()
    } else {
        let rest = kept_rows(b.drop_last());
        if row_full(b.last()) {
            rest
        } else {
            rest.push(b.last())
        }
    }
}

/// How many rows of `b` are full.
pub open spec fn full_row_count(b: Seq<Seq<Cell>>) -> int {
    b.len() - kept_rows(b).len()
}

/// Cell `(x, t)` after the full rows are cleared: the locked blocks of the
/// `t`-th surviving row drop to row `t`, keeping their colors; an overlay
/// cell stays put unless a dropped block lands on it; every other cell is
/// empty.
pub open spec fn cleared_cell(b: Seq<Seq<Cell>>, t: int, x: int) -> Cell {
    let k = kept_rows(b);
    if t < k.len() && x < k[t].len() && k[t][x].value == Color::Black {
        Cell { value: Color::Black, color: k[t][x].color }
    } else if b[t][x].value == Color::Gray {
        b[t][x]
    } else {
        white_cell()
    }
}

/// The whole board after a clear, row and column counts unchanged.
pub open spec fn board_after_clear(b: Seq<Seq<Cell>>) -> Seq<Seq<Cell>> {
    Seq::new(b.len(), |t: int| Seq::new(b[t].len(), |x: int| cleared_cell(b, t, x)))
}

/// The clear count the engine reports for `n` cleared rows. Counts above
/// four cannot arise from settling a single piece and report as `Zero`.
pub open spec fn rows_cleared_of(n: int) -> RowsCleared {
    if n == 1 {
        RowsCleared::One
    } else if n == 2 {
        RowsCleared::Two
    } else if n == 3 {
        RowsCleared::Three
    } else if n == 4 {
        RowsCleared::Four
    } else {
        RowsCleared::Zero
    }
}

impl Matrix<Cell> {
    /// The standard empty board.
    pub fn empty() -> (m: Self)
        ensures
            m@.len() == HEIGHT,
            rect(m@, WIDTH as int),
            forall|y: int, x: int|
                0 <= y < HEIGHT && 0 <= x < WIDTH ==> m@[y][x] == white_cell(),
    {
        Matrix::new(WIDTH, HEIGHT, Cell::white())
    }

    /// A board whose bottom five rows are filled at random: each of their
    /// cells is locked with probability one in three, all higher rows are
    /// empty. Nothing more is promised of the random outcome.
    pub fn random_partial_fill() -> (m: Self)
        ensures
            m@.len() == HEIGHT,
            rect(m@, WIDTH as int),
            forall|y: int, x: int|
                5 <= y < HEIGHT && 0 <= x < WIDTH ==> m@[y][x] == white_cell(),
            forall|y: int, x: int|
                0 <= y < 5 && 0 <= x < WIDTH ==> (m@[y][x] == white_cell() || m@[y][x] == (Cell {
                    value: Color::Black,
                    color: 15,
                })),
    {
        let mut rows: Vec<Vec<Cell>> = Vec::new();
        let mut y: usize = 0;
        while y < HEIGHT
            invariant
                y <= HEIGHT,
                rows@.len() == y,
                forall|i: int| 0 <= i < y ==> (#[trigger] rows@[i])@.len() == WIDTH,
                forall|i: int, x: int|
                    5 <= i < y && 0 <= x < WIDTH ==> rows@[i]@[x] == white_cell(),
                forall|i: int, x: int|
                    0 <= i < y && i < 5 && 0 <= x < WIDTH ==> (rows@[i]@[x] == white_cell()
                        || rows@[i]@[x] == (Cell { value: Color::Black, color: 15 })),
            decreases HEIGHT - y,
        {
            let mut row: Vec<Cell> = Vec::new();
            let mut x: usize = 0;
            while x < WIDTH
                invariant
                    x <= WIDTH,
                    row@.len() == x,
                    y < 5 ==> forall|j: int|
                        0 <= j < x ==> (row@[j] == white_cell() || row@[j] == (Cell {
                            value: Color::Black,
                            color: 15,
                        })),
                    y >= 5 ==> forall|j: int| 0 <= j < x ==> row@[j] == white_cell(),
            decreases WIDTH - x,
            {
                if y < 5 && random_below(3) == 0 {
                    row.push(Cell { value: Color::Black, color: 15 });
                } else {
                    row.push(Cell::white());
                }
                x = x + 1;
            }
            rows.push(row);
            y = y + 1;
        }
        Matrix { rows }
    }

    /// True when every point is on the board and free of a locked block.
    pub fn can_apply(&self, points: &[Point]) -> (r: bool)
        ensures
            r == pts_ok(self@, points@),
    {
        let mut i: usize = 0;
        while i < points.len()
            invariant
                i <= points@.len(),
                forall|k: int|
                    0 <= k < i ==> {
                        &&& in_bounds(self@, #[trigger] points@[k])
                        &&& self@[points@[k].y as int][points@[k].x as int].value != Color::Black
                    },
            decreases points@.len() - i,
        {
            let p = points[i];
            match self.get(p.x, p.y) {
                Some(cell) => {
                    if cell.value == Color::Black {
                        return false;
                    }
                },
                None => {
                    return false;
                },
            }
            i = i + 1;
        }
        true
    }

    /// Moves the falling piece's overlay: wipes any gray cells, then paints
    /// the piece's cells gray. Fails, leaving the board untouched, exactly
    /// when a piece cell is off the board or locked.
    pub fn apply(&mut self, piece: Piece, color: u8) -> (r: Option<&Self>)
        ensures
            r is Some <==> pts_ok(old(self)@, piece.points@),
            pts_ok(old(self)@, piece.points@) ==> final(self)@ == board_after_apply(
                old(self)@,
                piece.points@,
                color,
            ),
            !pts_ok(old(self)@, piece.points@) ==> *final(self) == *old(self),
            r matches Some(m) ==> *m == *final(self),
    {
        if !self.can_apply(piece.points.as_slice()) {
            return None;
        }
        let ghost b0 = self@;
        let height = self.rows.len();
        let mut y: usize = 0;
        while y < height
            invariant
                y <= height,
                height == b0.len(),
                self@.len() == b0.len(),
                forall|i: int| y <= i < b0.len() ==> #[trigger] self@[i] == b0[i],
                forall|i: int|
                    0 <= i < y ==> (#[trigger] self@[i]).len() == b0[i].len(),
                forall|i: int, x: int|
                    0 <= i < y && 0 <= x < b0[i].len() ==> self@[i][x] == (
                    if b0[i][x].value == Color::Gray {
                        white_cell()
                    } else {
                        b0[i][x]
                    }),
            decreases height - y,
        {
            proof {
                assert(self.rows@.len() == self@.len());
                assert(self@[y as int] == self.rows@[y as int]@);
            }
            let wdt = self.rows[y].len();
            let mut x: usize = 0;
            while x < wdt
                invariant
                    x <= wdt,
                    y < b0.len(),
                    wdt == b0[y as int].len(),
                    self@.len() == b0.len(),
                    forall|i: int| y < i < b0.len() ==> #[trigger] self@[i] == b0[i],
                    forall|i: int|
                        0 <= i < y ==> (#[trigger] self@[i]).len() == b0[i].len(),
                    forall|i: int, x2: int|
                        0 <= i < y && 0 <= x2 < b0[i].len() ==> self@[i][x2] == (
                        if b0[i][x2].value == Color::Gray {
                            white_cell()
                        } else {
                            b0[i][x2]
                        }),
                    self@[y as int].len() == b0[y as int].len(),
                    forall|x2: int|
                        0 <= x2 < x ==> self@[y as int][x2] == (
                        if b0[y as int][x2].value == Color::Gray {
                            white_cell()
                        } else {
                            b0[y as int][x2]
                        }),
                    forall|x2: int|
                        x <= x2 < b0[y as int].len() ==> self@[y as int][x2] == b0[y as int][x2],
                decreases wdt - x,
            {
                match self.get(x, y) {
                    Some(c) => {
                        if c.value == Color::Gray {
                            let _ = self.set(x, y, Cell::white());
                        }
                    },
                    None => {},
                }
                x = x + 1;
            }
            y = y + 1;
        }
        self.paint(&piece.points, Cell::gray(color));
        proof {
            assert(final(self)@ =~~= board_after_apply(b0, piece.points@, color));
        }
        Some(self)
    }

    /// Locks the given cells with the given color. Fails, leaving the board
    /// untouched, exactly when a point is off the board or already locked.
    pub fn settle(&mut self, points: &[Point], color: u8) -> (r: Option<&Self>)
        ensures
            r is Some <==> pts_ok(old(self)@, points@),
            pts_ok(old(self)@, points@) ==> final(self)@ == board_after_settle(
                old(self)@,
                points@,
                color,
            ),
            !pts_ok(old(self)@, points@) ==> *final(self) == *old(self),
            r matches Some(m) ==> *m == *final(self),
    {
        if !self.can_apply(points) {
            return None;
        }
        let ghost b0 = self@;
        self.paint(points, Cell::black(color));
        proof {
            assert(final(self)@ =~~= board_after_settle(b0, points@, color));
        }
        Some(self)
    }

    /// Writes `cell` at each of `points`, all of which must be on the board.
    fn paint(&mut self, points: &[Point], cell: Cell)
        requires
            forall|i: int| 0 <= i < points@.len() ==> in_bounds(old(self)@, #[trigger] points@[i]),
        ensures
            final(self)@.len() == old(self)@.len(),
            forall|y: int|
                0 <= y < old(self)@.len() ==> (#[trigger] final(self)@[y]).len() == old(
                    self,
                )@[y].len(),
            forall|y: int, x: int|
                0 <= y < old(self)@.len() && 0 <= x < old(self)@[y].len() ==> final(self)@[y][x]
                    == (if has_pt(points@, x, y) {
                    cell
                } else {
                    old(self)@[y][x]
                }),
    {
        let ghost b0 = self@;
        let mut i: usize = 0;
        while i < points.len()
            invariant
                i <= points@.len(),
                forall|k: int| 0 <= k < points@.len() ==> in_bounds(b0, #[trigger] points@[k]),
                self@.len() == b0.len(),
                forall|y: int|
                    0 <= y < b0.len() ==> (#[trigger] self@[y]).len() == b0[y].len(),
                forall|y: int, x: int|
                    0 <= y < b0.len() && 0 <= x < b0[y].len() ==> self@[y][x] == (
                    if has_pt(points@.take(i as int), x, y) {
                        cell
                    } else {
                        b0[y][x]
                    }),
            decreases points@.len() - i,
        {
            let p = points[i];
            let _ = self.set(p.x, p.y, cell);
            proof {
                assert(points@.take(i + 1) == points@.take(i as int).push(points@[i as int]));
                assert forall|x: int, y: int|
                    has_pt(points@.take(i + 1), x, y) <==> (has_pt(points@.take(i as int), x, y)
                        || (x == points@[i as int].x && y == points@[i as int].y)) by {
                    if has_pt(points@.take(i + 1), x, y) {
                        let k = choose|k: int|
                            0 <= k < points@.take(i + 1).len() && #[trigger] points@.take(
                                i + 1,
                            )[k].x == x && points@.take(i + 1)[k].y == y;
                        if k < i {
                            assert(has_pt(points@.take(i as int), x, y));
                        }
                    }
                    if has_pt(points@.take(i as int), x, y) {
                        let k = choose|k: int|
                            0 <= k < points@.take(i as int).len() && #[trigger] points@.take(
                                i as int,
                            )[k].x == x && points@.take(i as int)[k].y == y;
                        assert(points@.take(i + 1)[k].x == x && points@.take(i + 1)[k].y == y);
                    }
                    if x == points@[i as int].x && y == points@[i as int].y {
                        assert(points@.take(i + 1)[i as int].x == x && points@.take(
                            i + 1,
                        )[i as int].y == y);
                    }
                }
            }
            i = i + 1;
        }
        proof {
            assert(points@.take(points@.len() as int) == points@);
        }
    }

    /// True when every cell of the row is locked.
    fn row_is_full(row: &Vec<Cell>) -> (r: bool)
        ensures
            r == row_full(row@),
    {
        let mut x: usize = 0;
        while x < row.len()
            invariant
                x <= row@.len(),
                forall|j: int| 0 <= j < x ==> row@[j].value == Color::Black,
            decreases row@.len() - x,
        {
            if row[x].value != Color::Black {
                return false;
            }
            x = x + 1;
        }
        true
    }

    /// A copy of one row.
    fn copy_row(row: &Vec<Cell>) -> (r: Vec<Cell>)
        ensures
            r@ == row@,
    {
        let mut r: Vec<Cell> = Vec::new();
        let mut x: usize = 0;
        while x < row.len()
            invariant
                x <= row@.len(),
                r@ == row@.take(x as int),
            decreases row@.len() - x,
        {
            r.push(row[x]);
            proof {
                assert(r@ =~= row@.take(x + 1));
            }
            x = x + 1;
        }
        proof {
            assert(row@.take(row@.len() as int) == row@);
        }
        r
    }

    /// Clears every full row and drops the locked blocks above it, colors
    /// preserved; reports how many rows were cleared.
    pub fn clear_full_rows(&mut self) -> (r: RowsCleared)
        ensures
            final(self)@ == board_after_clear(old(self)@),
            r == rows_cleared_of(full_row_count(old(self)@)),
    {
        let ghost b0 = self@;
        proof {
            assert(self.rows@.len() == self@.len());
        }
        let height = self.rows.len();

        // Survivors: the rows that are not full, in order.
        let mut kept: Vec<Vec<Cell>> = Vec::new();
        let mut full_count: usize = 0;
        let mut y: usize = 0;
        while y < height
            invariant
                y <= height,
                height == b0.len(),
                self@ == b0,
                self.rows@.len() == b0.len(),
                kept@.map_values(|r2: Vec<Cell>| r2@) == kept_rows(b0.take(y as int)),
                full_count == y - kept@.len(),
                kept@.len() <= y,
            decreases height - y,
        {
            proof {
                assert(self@[y as int] == self.rows@[y as int]@);
                assert(b0.take(y as int + 1).drop_last() =~= b0.take(y as int));
                assert(b0.take(y as int + 1).last() == b0[y as int]);
            }
            if Self::row_is_full(&self.rows[y]) {
                full_count = full_count + 1;
            } else {
                let row = Self::copy_row(&self.rows[y]);
                kept.push(row);
                proof {
                    assert(kept@.map_values(|r2: Vec<Cell>| r2@) =~= kept_rows(
                        b0.take(y as int),
                    ).push(b0[y as int]));
                }
            }
            y = y + 1;
        }
        proof {
            assert(b0.take(height as int) == b0);
        }

        // Rebuild the board row by row from the surviving rows.
        let mut out: Vec<Vec<Cell>> = Vec::new();
        let mut t: usize = 0;
        while t < height
            invariant
                t <= height,
                height == b0.len(),
                self@ == b0,
                self.rows@.len() == b0.len(),
                kept@.map_values(|r2: Vec<Cell>| r2@) == kept_rows(b0),
                out@.len() == t,
                forall|i: int| 0 <= i < t ==> (#[trigger] out@[i])@.len() == b0[i].len(),
                forall|i: int, x: int|
                    0 <= i < t && 0 <= x < b0[i].len() ==> out@[i]@[x] == cleared_cell(b0, i, x),
            decreases height - t,
        {
            proof {
                assert(self@[t as int] == self.rows@[t as int]@);
            }
            let wdt = self.rows[t].len();
            let mut row: Vec<Cell> = Vec::new();
            let mut x: usize = 0;
            while x < wdt
                invariant
                    x <= wdt,
                    t < b0.len(),
                    wdt == b0[t as int].len(),
                    self@ == b0,
                    self.rows@.len() == b0.len(),
                    self.rows@[t as int]@ == b0[t as int],
                    kept@.map_values(|r2: Vec<Cell>| r2@) == kept_rows(b0),
                    row@.len() == x,
                    forall|j: int| 0 <= j < x ==> row@[j] == cleared_cell(b0, t as int, j),
                decreases wdt - x,
            {
                proof {
                    if (t as int) < kept@.len() {
                        assert(kept@.map_values(|r2: Vec<Cell>| r2@)[t as int] == kept@[t as int]@);
                    }
                }
                let mut c = Cell::white();
                if self.rows[t][x].value == Color::Gray {
                    c = self.rows[t][x];
                }
                if t < kept.len() {
                    if x < kept[t].len() {
                        if kept[t][x].value == Color::Black {
                            c = Cell::black(kept[t][x].color);
                        }
                    }
                }
                row.push(c);
                x = x + 1;
            }
            out.push(row);
            t = t + 1;
        }
        self.rows = out;
        proof {
            assert(final(self)@ =~~= board_after_clear(b0));
        }

        if full_count == 1 {
            RowsCleared::One
        } else if full_count == 2 {
            RowsCleared::Two
        } else if full_count == 3 {
            RowsCleared::Three
        } else if full_count == 4 {
            RowsCleared::Four
        } else {
            RowsCleared::Zero
        }
    }
}

} // verus!
