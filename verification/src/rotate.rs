//! The rotation engine: a piece is rotated by writing its cells into a
//! minimal bounding grid, transposing that grid (with a row reversal for the
//! direction), reading the occupied cells back out in row-major order, and
//! re-anchoring the result with a fixed per-shape, per-orientation offset
//! table.

use vstd::prelude::*;
use crate::matrix::{rect, Matrix};
use crate::piece::{next_orientation, prev_orientation, Orientation, Piece, Point, Shape};

verus! {

/// Row-major order on cells: lower rows first, then lower columns.
pub open spec fn yx_lt(a: (int, int), b: (int, int)) -> bool {
    a.1 < b.1 || (a.1 == b.1 && a.0 < b.0)
}

/// The cells appear in strictly increasing row-major order; in particular
/// they are pairwise distinct.
pub open spec fn strictly_sorted_yx(s: Seq<(int, int)>) -> bool {
    forall|i: int, j: int| 0 <= i < j < s.len() ==> yx_lt(s[i], s[j])
}

/// The columns of the occupied cells of one grid row, left to right, paired
/// with the row index `y`.
pub open spec fn row_pts(r: Seq<usize>, y: int) -> Seq<(int, int)>
    decreases r.len(),
{
    if r.len() == 0 {
        Seq::empty()
    } else {
        let rest = row_pts(r.drop_last(), y);
        if r.last() != 0 {
            rest.push((r.len() - 1, y))
        } else {
            rest
        }
    }
}

/// The occupied cells of a grid in row-major order, bottom row first.
pub open spec fn grid_pts(g: Seq<Seq<usize>>) -> Seq<(int, int)>
    decreases g.len(),
{
    if g.len() == 0 {
        Seq::empty()
    } else {
        grid_pts(g.drop_last()) + row_pts(g.last(), g.len() - 1)
    }
}

/// `row_pts` lists exactly the occupied columns of the row, in strictly
/// increasing column order.
pub proof fn lemma_row_pts_props(r: Seq<usize>, y: int)
    ensures
        forall|k: int|
            0 <= k < row_pts(r, y).len() ==> {
                let p = #[trigger] row_pts(r, y)[k];
                p.1 == y && 0 <= p.0 < r.len() && r[p.0] != 0
            },
        forall|x: int| 0 <= x < r.len() && r[x] != 0 ==> row_pts(r, y).contains((x, y)),
        forall|i: int, j: int|
            0 <= i < j < row_pts(r, y).len() ==> row_pts(r, y)[i].0 < row_pts(r, y)[j].0,
    decreases r.len(),
{
    if r.len() == 0 {
    } else {
        let dl = r.drop_last();
        lemma_row_pts_props(dl, y);
        assert forall|x: int| 0 <= x < r.len() && r[x] != 0 implies row_pts(r, y).contains(
            (x, y),
        ) by {
            if x < r.len() - 1 {
                assert(dl[x] == r[x]);
                assert(row_pts(dl, y).contains((x, y)));
                let k = choose|k: int|
                    0 <= k < row_pts(dl, y).len() && row_pts(dl, y)[k] == (x, y);
                assert(row_pts(r, y)[k] == (x, y));
            } else {
                assert(r.last() != 0);
                assert(row_pts(r, y).last() == (x, y));
            }
        }
    }
}

/// `grid_pts` lists exactly the occupied cells of the grid, in strictly
/// increasing row-major order.
pub proof fn lemma_grid_pts_props(g: Seq<Seq<usize>>)
    ensures
        forall|k: int|
            0 <= k < grid_pts(g).len() ==> {
                let p = #[trigger] grid_pts(g)[k];
                0 <= p.1 < g.len() && 0 <= p.0 < g[p.1].len() && g[p.1][p.0] != 0
            },
        forall|x: int, y: int|
            0 <= y < g.len() && 0 <= x < g[y].len() && g[y][x] != 0 ==> grid_pts(g).contains(
                (x, y),
            ),
        strictly_sorted_yx(grid_pts(g)),
    decreases g.len(),
{
    if g.len() == 0 {
    } else {
        let dl = g.drop_last();
        let last_row = g.last();
        let rp = row_pts(last_row, g.len() - 1);
        lemma_grid_pts_props(dl);
        lemma_row_pts_props(last_row, g.len() - 1);
        assert(grid_pts(g) == grid_pts(dl) + rp);
        assert forall|k: int| 0 <= k < grid_pts(g).len() implies {
            let p = #[trigger] grid_pts(g)[k];
            0 <= p.1 < g.len() && 0 <= p.0 < g[p.1].len() && g[p.1][p.0] != 0
        } by {
            if k < grid_pts(dl).len() {
                let p = grid_pts(dl)[k];
                assert(dl[p.1] == g[p.1]);
            }
        }
        assert forall|x: int, y: int|
            0 <= y < g.len() && 0 <= x < g[y].len() && g[y][x] != 0 implies grid_pts(g).contains(
            (x, y),
        ) by {
            if y < g.len() - 1 {
                assert(dl[y] == g[y]);
                assert(grid_pts(dl).contains((x, y)));
                let k = choose|k: int|
                    0 <= k < grid_pts(dl).len() && grid_pts(dl)[k] == (x, y);
                assert(grid_pts(g)[k] == (x, y));
            } else {
                assert(rp.contains((x, y)));
                let k = choose|k: int| 0 <= k < rp.len() && rp[k] == (x, y);
                assert(grid_pts(g)[grid_pts(dl).len() + k] == (x, y));
            }
        }
        assert forall|i: int, j: int|
            0 <= i < j < grid_pts(g).len() implies yx_lt(grid_pts(g)[i], grid_pts(g)[j]) by {
            let nd = grid_pts(dl).len() as int;
            if i < nd && j >= nd {
                assert(grid_pts(g)[i].1 < g.len() - 1);
                assert(grid_pts(g)[j].1 == g.len() - 1);
            }
        }
    }
}

/// The cells read from a prefix of the rows form a prefix of the cells read
/// from the whole grid.
pub proof fn lemma_grid_pts_prefix(g: Seq<Seq<usize>>, y: int)
    requires
        0 <= y <= g.len(),
    ensures
        grid_pts(g.take(y)).len() <= grid_pts(g).len(),
        forall|k: int|
            0 <= k < grid_pts(g.take(y)).len() ==> #[trigger] grid_pts(g.take(y))[k] == grid_pts(
                g,
            )[k],
    decreases g.len() - y,
{
    if y == g.len() {
        assert(g.take(y) =~= g);
    } else {
        lemma_grid_pts_prefix(g, y + 1);
        assert(g.take(y + 1).drop_last() =~= g.take(y));
        assert(g.take(y + 1).last() == g[y]);
        assert(grid_pts(g.take(y + 1)) == grid_pts(g.take(y)) + row_pts(g[y], y));
        assert forall|k: int|
            0 <= k < grid_pts(g.take(y)).len() implies #[trigger] grid_pts(g.take(y))[k]
            == grid_pts(g)[k] by {
            assert(grid_pts(g.take(y))[k] == grid_pts(g.take(y + 1))[k]);
        }
    }
}

/// Likewise within a single row.
pub proof fn lemma_row_pts_prefix(r: Seq<usize>, y: int, x: int)
    requires
        0 <= x <= r.len(),
    ensures
        row_pts(r.take(x), y).len() <= row_pts(r, y).len(),
        forall|k: int|
            0 <= k < row_pts(r.take(x), y).len() ==> #[trigger] row_pts(r.take(x), y)[k]
                == row_pts(r, y)[k],
    decreases r.len() - x,
{
    if x == r.len() {
        assert(r.take(x) =~= r);
    } else {
        lemma_row_pts_prefix(r, y, x + 1);
        assert(r.take(x + 1).drop_last() =~= r.take(x));
        assert(r.take(x + 1).last() == r[x]);
        assert(row_pts(r.take(x + 1), y) == if r[x] != 0 {
            row_pts(r.take(x), y).push((x, y))
        } else {
            row_pts(r.take(x), y)
        });
        assert forall|k: int|
            0 <= k < row_pts(r.take(x), y).len() implies #[trigger] row_pts(r.take(x), y)[k]
            == row_pts(r, y)[k] by {
            assert(row_pts(r.take(x), y)[k] == row_pts(r.take(x + 1), y)[k]);
        }
    }
}

/// Two strictly row-major-sorted sequences with the same members are equal.
pub proof fn lemma_sorted_unique(s1: Seq<(int, int)>, s2: Seq<(int, int)>)
    requires
        strictly_sorted_yx(s1),
        strictly_sorted_yx(s2),
        forall|p: (int, int)| s1.contains(p) <==> s2.contains(p),
    ensures
        s1 == s2,
    decreases s1.len(),
{
    if s1.len() == 0 {
        if s2.len() > 0 {
            assert(s2.contains(s2[0]));
            assert(s1.contains(s2[0]));
        }
        assert(s1 =~= s2);
    } else {
        assert(s1.contains(s1[0]));
        assert(s2.contains(s1[0]));
        let k = choose|k: int| 0 <= k < s2.len() && s2[k] == s1[0];
        assert(s2.contains(s2[0]));
        assert(s1.contains(s2[0]));
        let m = choose|m: int| 0 <= m < s1.len() && s1[m] == s2[0];
        if k > 0 {
            assert(yx_lt(s2[0], s2[k]));
            if m > 0 {
                assert(yx_lt(s1[0], s1[m]));
            }
        }
        assert(s1[0] == s2[0]);
        let t1 = s1.drop_first();
        let t2 = s2.drop_first();
        assert forall|i: int, j: int| 0 <= i < j < t1.len() implies yx_lt(t1[i], t1[j]) by {
            assert(t1[i] == s1[i + 1] && t1[j] == s1[j + 1]);
        }
        assert forall|i: int, j: int| 0 <= i < j < t2.len() implies yx_lt(t2[i], t2[j]) by {
            assert(t2[i] == s2[i + 1] && t2[j] == s2[j + 1]);
        }
        assert forall|p: (int, int)| t1.contains(p) implies t2.contains(p) by {
            let i = choose|i: int| 0 <= i < t1.len() && t1[i] == p;
            assert(s1[i + 1] == p);
            assert(s1.contains(p));
            assert(s2.contains(p));
            let j = choose|j: int| 0 <= j < s2.len() && s2[j] == p;
            assert(yx_lt(s1[0], s1[i + 1]));
            assert(j != 0);
            assert(t2[j - 1] == p);
        }
        assert forall|p: (int, int)| t2.contains(p) implies t1.contains(p) by {
            let i = choose|i: int| 0 <= i < t2.len() && t2[i] == p;
            assert(s2[i + 1] == p);
            assert(s2.contains(p));
            assert(s1.contains(p));
            let j = choose|j: int| 0 <= j < s1.len() && s1[j] == p;
            assert(yx_lt(s2[0], s2[i + 1]));
            assert(j != 0);
            assert(t1[j - 1] == p);
        }
        lemma_sorted_unique(t1, t2);
        assert(s1.len() == s2.len());
        assert forall|i: int| 0 <= i < s1.len() implies s1[i] == s2[i] by {
            if i > 0 {
                assert(s1[i] == t1[i - 1]);
                assert(s2[i] == t2[i - 1]);
            }
        }
        assert(s1 =~= s2);
    }
}

/// Insertion into a strictly sorted sequence, used to name the sorted
/// arrangement of a handful of cells.
pub open spec fn insert_yx(s: Seq<(int, int)>, v: (int, int)) -> Seq<(int, int)>
    decreases s.len(),
{
    if s.len() == 0 {
        seq![v]
    } else if yx_lt(v, s[0]) {
        seq![v] + s
    } else {
        seq![s[0]] + insert_yx(s.drop_first(), v)
    }
}

pub proof fn lemma_insert_yx(s: Seq<(int, int)>, v: (int, int))
    requires
        strictly_sorted_yx(s),
        !s.contains(v),
    ensures
        strictly_sorted_yx(insert_yx(s, v)),
        insert_yx(s, v).len() == s.len() + 1,
        forall|p: (int, int)| insert_yx(s, v).contains(p) <==> (s.contains(p) || p == v),
    decreases s.len(),
{
    if s.len() == 0 {
        assert forall|p: (int, int)| insert_yx(s, v).contains(p) implies (s.contains(p) || p
            == v) by {
            let i = choose|i: int| 0 <= i < insert_yx(s, v).len() && insert_yx(s, v)[i] == p;
        }
        assert(insert_yx(s, v)[0] == v);
        assert(insert_yx(s, v).contains(v));
    } else if yx_lt(v, s[0]) {
        let r = seq![v] + s;
        assert forall|i: int, j: int| 0 <= i < j < r.len() implies yx_lt(r[i], r[j]) by {
            if i == 0 {
                if j > 1 {
                    assert(yx_lt(s[0], s[j - 1]));
                }
            } else {
                assert(yx_lt(s[i - 1], s[j - 1]));
            }
        }
        assert forall|p: (int, int)| r.contains(p) implies (s.contains(p) || p == v) by {
            let i = choose|i: int| 0 <= i < r.len() && r[i] == p;
            if i > 0 {
                assert(s[i - 1] == p);
                assert(s.contains(p));
            }
        }
        assert forall|p: (int, int)| s.contains(p) || p == v implies r.contains(p) by {
            if s.contains(p) {
                let i = choose|i: int| 0 <= i < s.len() && s[i] == p;
                assert(r[i + 1] == p);
            } else {
                assert(r[0] == p);
            }
        }
    } else {
        let t = s.drop_first();
        assert(s[0] != v);
        assert(yx_lt(s[0], v));
        assert forall|i: int, j: int| 0 <= i < j < t.len() implies yx_lt(t[i], t[j]) by {
            assert(t[i] == s[i + 1] && t[j] == s[j + 1]);
        }
        assert(!t.contains(v)) by {
            if t.contains(v) {
                let i = choose|i: int| 0 <= i < t.len() && t[i] == v;
                assert(s[i + 1] == v);
                assert(s.contains(v));
            }
        }
        lemma_insert_yx(t, v);
        let it = insert_yx(t, v);
        let r = seq![s[0]] + it;
        assert(insert_yx(s, v) == r);
        assert forall|i: int, j: int| 0 <= i < j < r.len() implies yx_lt(r[i], r[j]) by {
            if i == 0 {
                let p = r[j];
                assert(it.contains(it[j - 1]));
                assert(t.contains(p) || p == v);
                if t.contains(p) {
                    let m = choose|m: int| 0 <= m < t.len() && t[m] == p;
                    assert(s[m + 1] == p);
                    assert(yx_lt(s[0], s[m + 1]));
                }
            } else {
                assert(yx_lt(it[i - 1], it[j - 1]));
            }
        }
        assert forall|p: (int, int)| r.contains(p) implies (s.contains(p) || p == v) by {
            let i = choose|i: int| 0 <= i < r.len() && r[i] == p;
            if i == 0 {
                assert(s.contains(s[0]));
            } else {
                assert(it[i - 1] == p);
                assert(it.contains(p));
                if t.contains(p) {
                    let m = choose|m: int| 0 <= m < t.len() && t[m] == p;
                    assert(s[m + 1] == p);
                    assert(s.contains(p));
                }
            }
        }
        assert forall|p: (int, int)| s.contains(p) || p == v implies r.contains(p) by {
            if s.contains(p) {
                let i = choose|i: int| 0 <= i < s.len() && s[i] == p;
                if i == 0 {
                    assert(r[0] == p);
                } else {
                    assert(t[i - 1] == p);
                    assert(t.contains(p));
                    assert(it.contains(p));
                    let m = choose|m: int| 0 <= m < it.len() && it[m] == p;
                    assert(r[m + 1] == p);
                }
            } else {
                assert(it.contains(v));
                let m = choose|m: int| 0 <= m < it.len() && it[m] == p;
                assert(r[m + 1] == p);
            }
        }
    }
}

/// The clockwise offset-correction table: where the rotated bounding box is
/// re-anchored, keyed by shape and the orientation *before* the rotation.
/// The entries were fixed empirically so that rotated pieces stay visually
/// anchored; `None` means the correction would leave the grid, so no
/// rotation candidate exists. Shapes and orientations without an entry fall
/// back to the lower-left corner itself.
pub open spec fn cw_offset(shape: Shape, o: Orientation, llx: int, lly: int) -> Option<
    (int, int),
> {
    match (shape, o) {
        (Shape::OrangeRicky, Orientation::Two) => Some((llx, lly + 1)),
        (Shape::OrangeRicky, Orientation::Three) => if lly >= 1 {
            Some((llx + 1, lly - 1))
        } else {
            None
        },
        (Shape::OrangeRicky, Orientation::Four) => if llx >= 1 {
            Some((llx - 1, lly))
        } else {
            None
        },
        (Shape::BlueRicky, Orientation::Two) => Some((llx, lly + 1)),
        (Shape::BlueRicky, Orientation::Three) => if lly >= 1 {
            Some((llx + 1, lly - 1))
        } else {
            None
        },
        (Shape::BlueRicky, Orientation::Four) => if llx >= 1 {
            Some((llx - 1, lly))
        } else {
            None
        },
        (Shape::Teewee, Orientation::Two) => Some((llx, lly + 1)),
        (Shape::Teewee, Orientation::Three) => if lly >= 1 {
            Some((llx + 1, lly - 1))
        } else {
            None
        },
        (Shape::Teewee, Orientation::Four) => if llx >= 1 {
            Some((llx - 1, lly))
        } else {
            None
        },
        (Shape::ClevelandZ, Orientation::One) => Some((llx + 1, lly)),
        (Shape::ClevelandZ, Orientation::Two) => if llx >= 1 {
            Some((llx - 1, lly))
        } else {
            None
        },
        (Shape::ClevelandZ, Orientation::Three) => Some((llx + 1, lly)),
        (Shape::ClevelandZ, Orientation::Four) => if llx >= 1 {
            Some((llx - 1, lly))
        } else {
            None
        },
        (Shape::RhodeIslandZ, Orientation::One) => Some((llx + 1, lly)),
        (Shape::RhodeIslandZ, Orientation::Two) => if llx >= 1 {
            Some((llx - 1, lly))
        } else {
            None
        },
        (Shape::RhodeIslandZ, Orientation::Three) => Some((llx + 1, lly)),
        (Shape::RhodeIslandZ, Orientation::Four) => if llx >= 1 {
            Some((llx - 1, lly))
        } else {
            None
        },
        (Shape::Hero, Orientation::One) => if lly >= 1 {
            Some((llx + 2, lly - 1))
        } else {
            None
        },
        (Shape::Hero, Orientation::Two) => if llx >= 2 {
            Some((llx - 2, lly + 1))
        } else {
            None
        },
        (Shape::Hero, Orientation::Three) => if lly >= 1 {
            Some((llx + 2, lly - 1))
        } else {
            None
        },
        (Shape::Hero, Orientation::Four) => if llx >= 2 {
            Some((llx - 2, lly + 1))
        } else {
            None
        },
        _ => Some((llx, lly)),
    }
}

/// The counter-clockwise offset-correction table, keyed like the clockwise
/// one by shape and the orientation before the rotation.
pub open spec fn ccw_offset(shape: Shape, o: Orientation, llx: int, lly: int) -> Option<
    (int, int),
> {
    match (shape, o) {
        (Shape::OrangeRicky, Orientation::One) => Some((llx + 1, lly)),
        (Shape::OrangeRicky, Orientation::Three) => if lly >= 1 {
            Some((llx, lly - 1))
        } else {
            None
        },
        (Shape::OrangeRicky, Orientation::Four) => if llx >= 1 {
            Some((llx - 1, lly + 1))
        } else {
            None
        },
        (Shape::BlueRicky, Orientation::One) => Some((llx + 1, lly)),
        (Shape::BlueRicky, Orientation::Three) => if lly >= 1 {
            Some((llx, lly - 1))
        } else {
            None
        },
        (Shape::BlueRicky, Orientation::Four) => if llx >= 1 {
            Some((llx - 1, lly + 1))
        } else {
            None
        },
        (Shape::Teewee, Orientation::One) => Some((llx + 1, lly)),
        (Shape::Teewee, Orientation::Three) => if lly >= 1 {
            Some((llx, lly - 1))
        } else {
            None
        },
        (Shape::Teewee, Orientation::Four) => if llx >= 1 {
            Some((llx - 1, lly + 1))
        } else {
            None
        },
        (Shape::ClevelandZ, Orientation::One) => Some((llx + 1, lly)),
        (Shape::ClevelandZ, Orientation::Two) => if llx >= 1 {
            Some((llx - 1, lly))
        } else {
            None
        },
        (Shape::ClevelandZ, Orientation::Three) => Some((llx + 1, lly)),
        (Shape::ClevelandZ, Orientation::Four) => if llx >= 1 {
            Some((llx - 1, lly))
        } else {
            None
        },
        (Shape::RhodeIslandZ, Orientation::One) => Some((llx + 1, lly)),
        (Shape::RhodeIslandZ, Orientation::Two) => if llx >= 1 {
            Some((llx - 1, lly))
        } else {
            None
        },
        (Shape::RhodeIslandZ, Orientation::Three) => Some((llx + 1, lly)),
        (Shape::RhodeIslandZ, Orientation::Four) => if llx >= 1 {
            Some((llx - 1, lly))
        } else {
            None
        },
        (Shape::Hero, Orientation::One) => if lly >= 1 {
            Some((llx + 2, lly - 1))
        } else {
            None
        },
        (Shape::Hero, Orientation::Two) => if llx >= 2 {
            Some((llx - 2, lly + 1))
        } else {
            None
        },
        (Shape::Hero, Orientation::Three) => if lly >= 1 {
            Some((llx + 2, lly - 1))
        } else {
            None
        },
        (Shape::Hero, Orientation::Four) => if llx >= 2 {
            Some((llx - 2, lly + 1))
        } else {
            None
        },
        _ => Some((llx, lly)),
    }
}

/// Where the cells of `piece` land under a clockwise rotation of its
/// bounding box, re-anchored at `(xo, yo)`; same cell order as the piece.
pub open spec fn cw_images(piece: Piece, xo: int, yo: int) -> Seq<(int, int)> {
    piece.pts().map_values(
        |p: (int, int)| (xo + p.1 - piece.lo_y(), yo + piece.hi_x() - p.0),
    )
}

/// Likewise for a counter-clockwise rotation.
pub open spec fn ccw_images(piece: Piece, xo: int, yo: int) -> Seq<(int, int)> {
    piece.pts().map_values(
        |p: (int, int)| (xo + piece.hi_y() - p.1, yo + p.0 - piece.lo_x()),
    )
}

/// The clockwise table as executable code.
pub fn derive_offsets_for_cw(piece: &Piece) -> (r: Option<(usize, usize)>)
    requires
        piece.hi_x() + 2 <= usize::MAX,
        piece.hi_y() + 2 <= usize::MAX,
    ensures
        r is Some <==> cw_offset(piece.shape, piece.orientation, piece.lo_x(), piece.lo_y())
            is Some,
        r matches Some(o) ==> cw_offset(piece.shape, piece.orientation, piece.lo_x(), piece.lo_y())
            == Some((o.0 as int, o.1 as int)),
        r matches Some(o) ==> o.0 <= piece.lo_x() + 2 && o.1 <= piece.lo_y() + 2,
{
    let (lower_left, _) = piece.bounds();
    match (piece.shape, piece.orientation) {
        (Shape::OrangeRicky, Orientation::Two)
        | (Shape::BlueRicky, Orientation::Two)
        | (Shape::Teewee, Orientation::Two) => Some((lower_left.x, lower_left.y + 1)),
        (Shape::OrangeRicky, Orientation::Three)
        | (Shape::BlueRicky, Orientation::Three)
        | (Shape::Teewee, Orientation::Three) => {
            if lower_left.y >= 1 {
                Some((lower_left.x + 1, lower_left.y - 1))
            } else {
                None
            }
        },
        (Shape::OrangeRicky, Orientation::Four)
        | (Shape::BlueRicky, Orientation::Four)
        | (Shape::Teewee, Orientation::Four) => {
            if lower_left.x >= 1 {
                Some((lower_left.x - 1, lower_left.y))
            } else {
                None
            }
        },
        (Shape::ClevelandZ, Orientation::One)
        | (Shape::ClevelandZ, Orientation::Three)
        | (Shape::RhodeIslandZ, Orientation::One)
        | (Shape::RhodeIslandZ, Orientation::Three) => Some((lower_left.x + 1, lower_left.y)),
        (Shape::ClevelandZ, Orientation::Two)
        | (Shape::ClevelandZ, Orientation::Four)
        | (Shape::RhodeIslandZ, Orientation::Two)
        | (Shape::RhodeIslandZ, Orientation::Four) => {
            if lower_left.x >= 1 {
                Some((lower_left.x - 1, lower_left.y))
            } else {
                None
            }
        },
        (Shape::Hero, Orientation::One) | (Shape::Hero, Orientation::Three) => {
            if lower_left.y >= 1 {
                Some((lower_left.x + 2, lower_left.y - 1))
            } else {
                None
            }
        },
        (Shape::Hero, Orientation::Two) | (Shape::Hero, Orientation::Four) => {
            if lower_left.x >= 2 {
                Some((lower_left.x - 2, lower_left.y + 1))
            } else {
                None
            }
        },
        _ => Some((lower_left.x, lower_left.y)),
    }
}

/// The counter-clockwise table as executable code.
pub fn derive_offsets_for_ccw(piece: &Piece) -> (r: Option<(usize, usize)>)
    requires
        piece.hi_x() + 2 <= usize::MAX,
        piece.hi_y() + 2 <= usize::MAX,
    ensures
        r is Some <==> ccw_offset(piece.shape, piece.orientation, piece.lo_x(), piece.lo_y())
            is Some,
        r matches Some(o) ==> ccw_offset(
            piece.shape,
            piece.orientation,
            piece.lo_x(),
            piece.lo_y(),
        ) == Some((o.0 as int, o.1 as int)),
        r matches Some(o) ==> o.0 <= piece.lo_x() + 2 && o.1 <= piece.lo_y() + 2,
{
    let (lower_left, _) = piece.bounds();
    match (piece.shape, piece.orientation) {
        (Shape::OrangeRicky, Orientation::One)
        | (Shape::BlueRicky, Orientation::One)
        | (Shape::Teewee, Orientation::One) => Some((lower_left.x + 1, lower_left.y)),
        (Shape::OrangeRicky, Orientation::Three)
        | (Shape::BlueRicky, Orientation::Three)
        | (Shape::Teewee, Orientation::Three) => {
            if lower_left.y >= 1 {
                Some((lower_left.x, lower_left.y - 1))
            } else {
                None
            }
        },
        (Shape::OrangeRicky, Orientation::Four)
        | (Shape::BlueRicky, Orientation::Four)
        | (Shape::Teewee, Orientation::Four) => {
            if lower_left.x >= 1 {
                Some((lower_left.x - 1, lower_left.y + 1))
            } else {
                None
            }
        },
        (Shape::ClevelandZ, Orientation::One)
        | (Shape::ClevelandZ, Orientation::Three)
        | (Shape::RhodeIslandZ, Orientation::One)
        | (Shape::RhodeIslandZ, Orientation::Three) => Some((lower_left.x + 1, lower_left.y)),
        (Shape::ClevelandZ, Orientation::Two)
        | (Shape::ClevelandZ, Orientation::Four)
        | (Shape::RhodeIslandZ, Orientation::Two)
        | (Shape::RhodeIslandZ, Orientation::Four) => {
            if lower_left.x >= 1 {
                Some((lower_left.x - 1, lower_left.y))
            } else {
                None
            }
        },
        (Shape::Hero, Orientation::One) | (Shape::Hero, Orientation::Three) => {
            if lower_left.y >= 1 {
                Some((lower_left.x + 2, lower_left.y - 1))
            } else {
                None
            }
        },
        (Shape::Hero, Orientation::Two) | (Shape::Hero, Orientation::Four) => {
            if lower_left.x >= 2 {
                Some((lower_left.x - 2, lower_left.y + 1))
            } else {
                None
            }
        },
        _ => Some((lower_left.x, lower_left.y)),
    }
}

/// Builds the minimal bounding grid of the piece: cell `(x, y)` of the grid
/// holds `i + 1` when the piece's `i`-th point sits at that position
/// relative to the piece's lower-left corner, and `0` elsewhere.
/// The value the bounding grid holds at position `(rx, ry)` relative to the
/// piece's lower-left corner: `i + 1` for the piece's `i`-th cell, `0` for
/// an empty position. When two cells coincide the higher index wins, as a
/// later write would.
pub open spec fn bbox_cell(piece: Piece, rx: int, ry: int) -> usize {
    let pos = (rx + piece.lo_x(), ry + piece.lo_y());
    if pos == piece.pts()[3] {
        4
    } else if pos == piece.pts()[2] {
        3
    } else if pos == piece.pts()[1] {
        2
    } else if pos == piece.pts()[0] {
        1
    } else {
        0
    }
}

/// Builds the minimal bounding grid of the piece: cell `(x, y)` of the grid
/// holds `i + 1` when the piece's `i`-th point sits at that position
/// relative to the piece's lower-left corner, and `0` elsewhere.
pub fn generate_bounding_matrix(piece: &Piece) -> (m: Matrix<usize>)
    requires
        piece.hi_x() - piece.lo_x() < usize::MAX,
        piece.hi_y() - piece.lo_y() < usize::MAX,
    ensures
        m@.len() == piece.hi_y() - piece.lo_y() + 1,
        rect(m@, piece.hi_x() - piece.lo_x() + 1),
        forall|x: int, y: int|
            0 <= y < m@.len() && 0 <= x < m@[y].len() ==> m@[y][x] == bbox_cell(*piece, x, y),
{
    proof {
        assert(piece.pts()[0] == piece.points@[0].sp());
        assert(piece.pts()[1] == piece.points@[1].sp());
        assert(piece.pts()[2] == piece.points@[2].sp());
        assert(piece.pts()[3] == piece.points@[3].sp());
    }
    let (lower_left, upper_right) = piece.bounds();
    let width = upper_right.x - lower_left.x + 1;
    let height = upper_right.y - lower_left.y + 1;
    let mut rows: Vec<Vec<usize>> = Vec::new();
    let mut ry: usize = 0;
    while ry < height
        invariant
            ry <= height,
            lower_left.x == piece.lo_x(),
            lower_left.y == piece.lo_y(),
            rows@.len() == ry,
            forall|i: int| 0 <= i < ry ==> (#[trigger] rows@[i])@.len() == width,
            forall|i: int, x: int|
                0 <= i < ry && 0 <= x < width ==> rows@[i]@[x] == bbox_cell(*piece, x, i),
        decreases height - ry,
    {
        let mut row: Vec<usize> = Vec::new();
        let mut rx: usize = 0;
        while rx < width
            invariant
                rx <= width,
                lower_left.x == piece.lo_x(),
                lower_left.y == piece.lo_y(),
                row@.len() == rx,
                forall|j: int| 0 <= j < rx ==> row@[j] == bbox_cell(*piece, j, ry as int),
            decreases width - rx,
        {
            let mut v: usize = 0;
            if piece.points[0].x - lower_left.x == rx && piece.points[0].y - lower_left.y == ry {
                v = 1;
            }
            if piece.points[1].x - lower_left.x == rx && piece.points[1].y - lower_left.y == ry {
                v = 2;
            }
            if piece.points[2].x - lower_left.x == rx && piece.points[2].y - lower_left.y == ry {
                v = 3;
            }
            if piece.points[3].x - lower_left.x == rx && piece.points[3].y - lower_left.y == ry {
                v = 4;
            }
            row.push(v);
            rx = rx + 1;
        }
        rows.push(row);
        ry = ry + 1;
    }
    Matrix { rows }
}

/// Transposes the grid: the cell at row `y`, column `x` of the input lands
/// at row `W-1-x`, column `H-1-y` of the output, where the input has `H`
/// rows of `W` columns each.
pub fn transpose(matrix: Matrix<usize>) -> (out: Matrix<usize>)
    requires
        matrix@.len() >= 1,
        rect(matrix@, matrix@[0].len() as int),
    ensures
        out@.len() == matrix@[0].len(),
        rect(out@, matrix@.len() as int),
        forall|r: int, c: int|
            0 <= r < out@.len() && 0 <= c < matrix@.len() ==> out@[r][c] == matrix@[matrix@.len()
                - 1 - c][matrix@[0].len() - 1 - r],
{
    let height = matrix.height();
    let width = matrix.width();
    let mut out: Matrix<usize> = Matrix::new(height, width, 0);
    let mut y: usize = 0;
    while y < height
        invariant
            y <= height,
            height == matrix@.len(),
            width == matrix@[0].len(),
            rect(matrix@, width as int),
            out@.len() == width,
            rect(out@, height as int),
            forall|y2: int, x2: int|
                0 <= y2 < y && 0 <= x2 < width ==> out@[width - 1 - x2][height - 1 - y2]
                    == matrix@[y2][x2],
        decreases height - y,
    {
        let mut x: usize = 0;
        while x < width
            invariant
                x <= width,
                y < height,
                height == matrix@.len(),
                width == matrix@[0].len(),
                rect(matrix@, width as int),
                out@.len() == width,
                rect(out@, height as int),
                forall|y2: int, x2: int|
                    0 <= y2 < y && 0 <= x2 < width ==> out@[width - 1 - x2][height - 1 - y2]
                        == matrix@[y2][x2],
                forall|x2: int|
                    0 <= x2 < x ==> out@[width - 1 - x2][height - 1 - y as int] == matrix@[y as int][x2],
            decreases width - x,
        {
            let val = match matrix.get(x, y) {
                Some(v) => v,
                None => 0,
            };
            let new_x = (width - 1) - x;
            let new_y = (height - 1) - y;
            let _ = out.set(new_y, new_x, val);
            x = x + 1;
        }
        y = y + 1;
    }
    proof {
        assert forall|r: int, c: int|
            0 <= r < out@.len() && 0 <= c < matrix@.len() implies out@[r][c] == matrix@[matrix@.len()
            - 1 - c][matrix@[0].len() - 1 - r] by {
            let y2 = matrix@.len() - 1 - c;
            let x2 = matrix@[0].len() - 1 - r;
            assert(out@[width - 1 - x2][height - 1 - y2] == matrix@[y2][x2]);
        }
    }
    out
}

/// Reverses every row of the grid in place.
pub fn reverse_rows(matrix: &mut Matrix<usize>)
    ensures
        final(matrix)@.len() == old(matrix)@.len(),
        forall|y: int|
            0 <= y < old(matrix)@.len() ==> (#[trigger] final(matrix)@[y]).len()
                == old(matrix)@[y].len(),
        forall|y: int, x: int|
            0 <= y < old(matrix)@.len() && 0 <= x < old(matrix)@[y].len()
                ==> final(matrix)@[y][x] == old(matrix)@[y][old(matrix)@[y].len() - 1 - x],
{
    let ghost b0 = matrix@;
    proof {
        assert(matrix.rows@.len() == matrix@.len());
    }
    let height = matrix.rows.len();
    let mut out: Vec<Vec<usize>> = Vec::new();
    let mut y: usize = 0;
    while y < height
        invariant
            y <= height,
            height == b0.len(),
            matrix@ == b0,
            matrix.rows@.len() == b0.len(),
            out@.len() == y,
            forall|i: int| 0 <= i < y ==> (#[trigger] out@[i])@.len() == b0[i].len(),
            forall|i: int, x: int|
                0 <= i < y && 0 <= x < b0[i].len() ==> out@[i]@[x] == b0[i][b0[i].len() - 1 - x],
        decreases height - y,
    {
        proof {
            assert(matrix@[y as int] == matrix.rows@[y as int]@);
        }
        let wdt = matrix.rows[y].len();
        let mut row: Vec<usize> = Vec::new();
        let mut x: usize = 0;
        while x < wdt
            invariant
                x <= wdt,
                y < b0.len(),
                wdt == b0[y as int].len(),
                matrix@ == b0,
                row@.len() == x,
                forall|j: int|
                    0 <= j < x ==> row@[j] == b0[y as int][b0[y as int].len() - 1 - j],
            decreases wdt - x,
        {
            let val = match matrix.get(wdt - 1 - x, y) {
                Some(v) => v,
                None => 0,
            };
            row.push(val);
            x = x + 1;
        }
        out.push(row);
        y = y + 1;
    }
    let ghost outv = out@;
    matrix.rows = out;
    proof {
        assert forall|y2: int| 0 <= y2 < b0.len() implies #[trigger] final(matrix)@[y2]
            == outv[y2]@ by {}
    }
}

/// Reads the occupied cells of the grid back out in row-major order,
/// translated by the given offsets. The grid must hold exactly four
/// occupied cells.
pub fn extract_points_from_bounding_matrix(
    bbox: &Matrix<usize>,
    x_offset: usize,
    y_offset: usize,
) -> (r: [Point; 4])
    requires
        grid_pts(bbox@).len() == 4,
        forall|k: int|
            0 <= k < 4 ==> (#[trigger] grid_pts(bbox@)[k]).0 + x_offset <= usize::MAX
                && grid_pts(bbox@)[k].1 + y_offset <= usize::MAX,
    ensures
        forall|k: int|
            0 <= k < 4 ==> (#[trigger] r@[k]).sp() == (
                grid_pts(bbox@)[k].0 + x_offset,
                grid_pts(bbox@)[k].1 + y_offset,
            ),
{
    let ghost g = bbox@;
    proof {
        assert(bbox.rows@.len() == bbox@.len());
    }
    let height = bbox.rows.len();
    let mut pts: Vec<Point> = Vec::new();
    let mut y: usize = 0;
    while y < height
        invariant
            y <= height,
            height == g.len(),
            bbox@ == g,
            bbox.rows@.len() == g.len(),
            grid_pts(g).len() == 4,
            forall|k: int|
                0 <= k < 4 ==> (#[trigger] grid_pts(g)[k]).0 + x_offset <= usize::MAX
                    && grid_pts(g)[k].1 + y_offset <= usize::MAX,
            pts@.len() == grid_pts(g.take(y as int)).len(),
            forall|k: int|
                0 <= k < pts@.len() ==> (#[trigger] pts@[k]).sp() == (
                    grid_pts(g.take(y as int))[k].0 + x_offset,
                    grid_pts(g.take(y as int))[k].1 + y_offset,
                ),
        decreases height - y,
    {
        proof {
            assert(bbox@[y as int] == bbox.rows@[y as int]@);
        }
        let wdt = bbox.rows[y].len();
        let ghost row = g[y as int];
        let mut x: usize = 0;
        while x < wdt
            invariant
                x <= wdt,
                y < g.len(),
                row == g[y as int],
                wdt == row.len(),
                bbox@ == g,
                bbox.rows@.len() == g.len(),
                grid_pts(g).len() == 4,
                forall|k: int|
                    0 <= k < 4 ==> (#[trigger] grid_pts(g)[k]).0 + x_offset <= usize::MAX
                        && grid_pts(g)[k].1 + y_offset <= usize::MAX,
                pts@.len() == grid_pts(g.take(y as int)).len() + row_pts(
                    row.take(x as int),
                    y as int,
                ).len(),
                forall|k: int|
                    0 <= k < grid_pts(g.take(y as int)).len() ==> (#[trigger] pts@[k]).sp() == (
                        grid_pts(g.take(y as int))[k].0 + x_offset,
                        grid_pts(g.take(y as int))[k].1 + y_offset,
                    ),
                forall|k: int|
                    0 <= k < row_pts(row.take(x as int), y as int).len() ==> pts@[grid_pts(
                        g.take(y as int),
                    ).len() + k].sp() == (
                        row_pts(row.take(x as int), y as int)[k].0 + x_offset,
                        row_pts(row.take(x as int), y as int)[k].1 + y_offset,
                    ),
        decreases wdt - x,
        {
            let ghost pre = grid_pts(g.take(y as int));
            let ghost rp_pre = row_pts(row.take(x as int), y as int);
            proof {
                assert(row.take(x as int + 1).drop_last() =~= row.take(x as int));
                assert(row.take(x as int + 1).last() == row[x as int]);
                assert(row_pts(row.take(x as int + 1), y as int) == if row[x as int] != 0 {
                    rp_pre.push((x as int, y as int))
                } else {
                    rp_pre
                });
            }
            let val = match bbox.get(x, y) {
                Some(v) => v,
                None => 0,
            };
            if val != 0 {
                proof {
                    // The cell being pushed is the next entry of the full
                    // row-major listing, so the offset sums stay in range.
                    lemma_grid_pts_prefix(g, y as int + 1);
                    assert(g.take(y as int + 1).drop_last() =~= g.take(y as int));
                    assert(g.take(y as int + 1).last() == g[y as int]);
                    assert(grid_pts(g.take(y as int + 1)) == pre + row_pts(row, y as int));
                    lemma_row_pts_prefix(row, y as int, x as int + 1);
                    assert(row_pts(row.take(x as int + 1), y as int)[rp_pre.len() as int] == (
                        x as int,
                        y as int,
                    ));
                    assert(row_pts(row, y as int)[rp_pre.len() as int] == (x as int, y as int));
                    assert(grid_pts(g.take(y as int + 1))[pre.len() + rp_pre.len() as int] == (
                        x as int,
                        y as int,
                    ));
                    assert(grid_pts(g)[pre.len() + rp_pre.len() as int] == (x as int, y as int));
                    assert(pre.len() + rp_pre.len() < 4) by {
                        lemma_grid_pts_props(g);
                        assert(grid_pts(g.take(y as int + 1)).len() <= 4);
                    }
                }
                pts.push(Point::new(x + x_offset, y + y_offset));
            }
            x = x + 1;
        }
        proof {
            assert(row.take(wdt as int) =~= row);
            assert(g.take(y as int + 1).drop_last() =~= g.take(y as int));
            assert(g.take(y as int + 1).last() == g[y as int]);
            assert(grid_pts(g.take(y as int + 1)) == grid_pts(g.take(y as int)) + row_pts(
                row,
                y as int,
            ));
        }
        y = y + 1;
    }
    proof {
        assert(g.take(height as int) =~= g);
    }
    let p0 = pts[0];
    let p1 = pts[1];
    let p2 = pts[2];
    let p3 = pts[3];
    [p0, p1, p2, p3]
}

/// From a given piece, the candidate piece after one clockwise rotation:
/// the occupied cells of the transposed-and-reversed bounding grid, read in
/// row-major order and re-anchored by the offset table. `None` exactly when
/// the table's correction would leave the grid.
#[verifier::rlimit(100)]
#[verifier::spinoff_prover]
pub fn rotate_clockwise(piece: &Piece) -> (r: Option<Piece>)
    requires
        piece.pts_distinct(),
        piece.hi_x() + piece.hi_y() + 4 <= usize::MAX,
    ensures
        r is Some <==> cw_offset(piece.shape, piece.orientation, piece.lo_x(), piece.lo_y())
            is Some,
        r matches Some(q) ==> {
            &&& q.shape == piece.shape
            &&& q.orientation == next_orientation(piece.orientation)
            &&& strictly_sorted_yx(q.pts())
            &&& q.pts_distinct()
            &&& (cw_offset(piece.shape, piece.orientation, piece.lo_x(), piece.lo_y())
                matches Some(off) ==> (forall|p: (int, int)|
                    q.pts().contains(p) <==> cw_images(*piece, off.0, off.1).contains(p)))
        },
{
    let ghost llx = piece.lo_x();
    let ghost lly = piece.lo_y();
    let ghost hix = piece.hi_x();
    let ghost hiy = piece.hi_y();
    let ghost w = hix - llx + 1;
    let ghost h = hiy - lly + 1;
    let bbox = generate_bounding_matrix(piece);
    let ghost bb = bbox@;
    let mut transposed = transpose(bbox);
    reverse_rows(&mut transposed);
    let offs = derive_offsets_for_cw(piece);
    match offs {
        None => None,
        Some((x_offset, y_offset)) => {
            let ghost g = transposed@;
            let ghost pts = piece.pts();
            let ghost img0 = (pts[0].1 - lly, hix - pts[0].0);
            let ghost img1 = (pts[1].1 - lly, hix - pts[1].0);
            let ghost img2 = (pts[2].1 - lly, hix - pts[2].0);
            let ghost img3 = (pts[3].1 - lly, hix - pts[3].0);
            proof {
                assert(pts[0] == piece.points@[0].sp());
                assert(pts[1] == piece.points@[1].sp());
                assert(pts[2] == piece.points@[2].sp());
                assert(pts[3] == piece.points@[3].sp());
                assert(g.len() == w);
                assert forall|x: int, y: int|
                    0 <= y < g.len() && 0 <= x < g[y].len() implies ((g[y][x] != 0) <==> ((x, y)
                    == img0 || (x, y) == img1 || (x, y) == img2 || (x, y) == img3)) by {
                    assert(g[y][x] == bb[x][w - 1 - y]);
                    assert(bb[x][w - 1 - y] == bbox_cell(*piece, w - 1 - y, x));
                }
                assert(pts[0] != pts[1] && pts[0] != pts[2] && pts[0] != pts[3] && pts[1]
                    != pts[2] && pts[1] != pts[3] && pts[2] != pts[3]);
                lemma_rotation_listing(g, img0, img1, img2, img3);
                assert forall|k: int|
                    0 <= k < 4 implies (#[trigger] grid_pts(g)[k]).0 + x_offset <= usize::MAX
                    && grid_pts(g)[k].1 + y_offset <= usize::MAX by {
                    assert(grid_pts(g).contains(grid_pts(g)[k]));
                }
            }
            let points = extract_points_from_bounding_matrix(&transposed, x_offset, y_offset);
            let result = Piece {
                shape: piece.shape,
                orientation: piece.orientation.next(),
                points,
            };
            proof {
                lemma_rotation_result(
                    g,
                    img0,
                    img1,
                    img2,
                    img3,
                    result,
                    x_offset as int,
                    y_offset as int,
                    cw_images(*piece, x_offset as int, y_offset as int),
                );
            }
            Some(result)
        },
    }
}

/// From a given piece, the candidate piece after one counter-clockwise
/// rotation, built like the clockwise one with the reversal applied before
/// the transposition.
#[verifier::rlimit(100)]
#[verifier::spinoff_prover]
pub fn rotate_counterclockwise(piece: &Piece) -> (r: Option<Piece>)
    requires
        piece.pts_distinct(),
        piece.hi_x() + piece.hi_y() + 4 <= usize::MAX,
    ensures
        r is Some <==> ccw_offset(piece.shape, piece.orientation, piece.lo_x(), piece.lo_y())
            is Some,
        r matches Some(q) ==> {
            &&& q.shape == piece.shape
            &&& q.orientation == prev_orientation(piece.orientation)
            &&& strictly_sorted_yx(q.pts())
            &&& q.pts_distinct()
            &&& (ccw_offset(piece.shape, piece.orientation, piece.lo_x(), piece.lo_y())
                matches Some(off) ==> (forall|p: (int, int)|
                    q.pts().contains(p) <==> ccw_images(*piece, off.0, off.1).contains(p)))
        },
{
    let ghost llx = piece.lo_x();
    let ghost lly = piece.lo_y();
    let ghost hix = piece.hi_x();
    let ghost hiy = piece.hi_y();
    let ghost w = hix - llx + 1;
    let ghost h = hiy - lly + 1;
    let mut bbox = generate_bounding_matrix(piece);
    let ghost bb = bbox@;
    reverse_rows(&mut bbox);
    let transposed = transpose(bbox);
    let offs = derive_offsets_for_ccw(piece);
    match offs {
        None => None,
        Some((x_offset, y_offset)) => {
            let ghost g = transposed@;
            let ghost pts = piece.pts();
            let ghost img0 = (hiy - pts[0].1, pts[0].0 - llx);
            let ghost img1 = (hiy - pts[1].1, pts[1].0 - llx);
            let ghost img2 = (hiy - pts[2].1, pts[2].0 - llx);
            let ghost img3 = (hiy - pts[3].1, pts[3].0 - llx);
            proof {
                assert(pts[0] == piece.points@[0].sp());
                assert(pts[1] == piece.points@[1].sp());
                assert(pts[2] == piece.points@[2].sp());
                assert(pts[3] == piece.points@[3].sp());
                assert(g.len() == w);
                assert forall|x: int, y: int|
                    0 <= y < g.len() && 0 <= x < g[y].len() implies ((g[y][x] != 0) <==> ((x, y)
                    == img0 || (x, y) == img1 || (x, y) == img2 || (x, y) == img3)) by {
                    assert(g[y][x] == bb[h - 1 - x][y]);
                    assert(bb[h - 1 - x][y] == bbox_cell(*piece, y, h - 1 - x));
                }
                assert(pts[0] != pts[1] && pts[0] != pts[2] && pts[0] != pts[3] && pts[1]
                    != pts[2] && pts[1] != pts[3] && pts[2] != pts[3]);
                lemma_rotation_listing(g, img0, img1, img2, img3);
                assert forall|k: int|
                    0 <= k < 4 implies (#[trigger] grid_pts(g)[k]).0 + x_offset <= usize::MAX
                    && grid_pts(g)[k].1 + y_offset <= usize::MAX by {
                    assert(grid_pts(g).contains(grid_pts(g)[k]));
                }
            }
            let points = extract_points_from_bounding_matrix(&transposed, x_offset, y_offset);
            let result = Piece {
                shape: piece.shape,
                orientation: piece.orientation.prev(),
                points,
            };
            proof {
                lemma_rotation_result(
                    g,
                    img0,
                    img1,
                    img2,
                    img3,
                    result,
                    x_offset as int,
                    y_offset as int,
                    ccw_images(*piece, x_offset as int, y_offset as int),
                );
            }
            Some(result)
        },
    }
}

/// The row-major arrangement of the four image cells of a rotation.
pub open spec fn sorted_cells(
    img0: (int, int),
    img1: (int, int),
    img2: (int, int),
    img3: (int, int),
) -> Seq<(int, int)> {
    insert_yx(insert_yx(insert_yx(insert_yx(Seq::empty(), img0), img1), img2), img3)
}

/// When the occupied cells of `g` are exactly the four distinct image cells,
/// the row-major listing of `g` is their sorted arrangement; in particular
/// it has exactly four entries.
proof fn lemma_rotation_listing(
    g: Seq<Seq<usize>>,
    img0: (int, int),
    img1: (int, int),
    img2: (int, int),
    img3: (int, int),
)
    requires
        img0 != img1 && img0 != img2 && img0 != img3 && img1 != img2 && img1 != img3 && img2
            != img3,
        0 <= img0.1 < g.len() && 0 <= img0.0 < g[img0.1].len(),
        0 <= img1.1 < g.len() && 0 <= img1.0 < g[img1.1].len(),
        0 <= img2.1 < g.len() && 0 <= img2.0 < g[img2.1].len(),
        0 <= img3.1 < g.len() && 0 <= img3.0 < g[img3.1].len(),
        forall|x: int, y: int|
            0 <= y < g.len() && 0 <= x < g[y].len() ==> ((g[y][x] != 0) <==> ((x, y) == img0 || (
            x,
            y,
            ) == img1 || (x, y) == img2 || (x, y) == img3)),
    ensures
        grid_pts(g) == sorted_cells(img0, img1, img2, img3),
        grid_pts(g).len() == 4,
        strictly_sorted_yx(grid_pts(g)),
        forall|p: (int, int)|
            grid_pts(g).contains(p) <==> (p == img0 || p == img1 || p == img2 || p == img3),
{
    lemma_grid_pts_props(g);
    let gp = grid_pts(g);
    let e = Seq::<(int, int)>::empty();
    lemma_insert_yx(e, img0);
    let c1 = insert_yx(e, img0);
    assert(!e.contains(img1));
    assert(!c1.contains(img1));
    lemma_insert_yx(c1, img1);
    let c2 = insert_yx(c1, img1);
    assert(!e.contains(img2));
    assert(!c1.contains(img2));
    assert(!c2.contains(img2));
    lemma_insert_yx(c2, img2);
    let c3 = insert_yx(c2, img2);
    assert(!e.contains(img3));
    assert(!c1.contains(img3));
    assert(!c2.contains(img3));
    assert(!c3.contains(img3));
    lemma_insert_yx(c3, img3);
    let cand = insert_yx(c3, img3);
    assert(cand == sorted_cells(img0, img1, img2, img3));
    assert(cand.len() == 4);
    assert forall|p: (int, int)|
        gp.contains(p) implies (p == img0 || p == img1 || p == img2 || p == img3) by {
        let k = choose|k: int| 0 <= k < gp.len() && gp[k] == p;
        assert(0 <= p.1 < g.len() && 0 <= p.0 < g[p.1].len() && g[p.1][p.0] != 0);
    }
    assert(g[img0.1][img0.0] != 0);
    assert(gp.contains(img0));
    assert(g[img1.1][img1.0] != 0);
    assert(gp.contains(img1));
    assert(g[img2.1][img2.0] != 0);
    assert(gp.contains(img2));
    assert(g[img3.1][img3.0] != 0);
    assert(gp.contains(img3));
    assert forall|p: (int, int)| gp.contains(p) <==> cand.contains(p) by {
        assert(cand.contains(p) <==> (c3.contains(p) || p == img3));
        assert(c3.contains(p) <==> (c2.contains(p) || p == img2));
        assert(c2.contains(p) <==> (c1.contains(p) || p == img1));
        assert(c1.contains(p) <==> (e.contains(p) || p == img0));
        assert(!e.contains(p));
        if gp.contains(p) {
            assert(p == img0 || p == img1 || p == img2 || p == img3);
        }
    }
    lemma_sorted_unique(gp, cand);
}

/// Carries the listing facts over to the assembled result piece.
proof fn lemma_rotation_result(
    g: Seq<Seq<usize>>,
    img0: (int, int),
    img1: (int, int),
    img2: (int, int),
    img3: (int, int),
    result: Piece,
    xo: int,
    yo: int,
    images: Seq<(int, int)>,
)
    requires
        grid_pts(g) == sorted_cells(img0, img1, img2, img3),
        grid_pts(g).len() == 4,
        strictly_sorted_yx(grid_pts(g)),
        forall|p: (int, int)|
            grid_pts(g).contains(p) <==> (p == img0 || p == img1 || p == img2 || p == img3),
        forall|k: int|
            0 <= k < 4 ==> (#[trigger] result.points@[k]).sp() == (
                grid_pts(g)[k].0 + xo,
                grid_pts(g)[k].1 + yo,
            ),
        images.len() == 4,
        images[0] == (img0.0 + xo, img0.1 + yo),
        images[1] == (img1.0 + xo, img1.1 + yo),
        images[2] == (img2.0 + xo, img2.1 + yo),
        images[3] == (img3.0 + xo, img3.1 + yo),
    ensures
        strictly_sorted_yx(result.pts()),
        result.pts_distinct(),
        forall|p: (int, int)| result.pts().contains(p) <==> images.contains(p),
{
    let gp = grid_pts(g);
    let rp = result.pts();
    assert(rp.len() == 4);
    assert forall|k: int| 0 <= k < 4 implies rp[k] == (gp[k].0 + xo, gp[k].1 + yo) by {
        assert(rp[k] == result.points@[k].sp());
    }
    assert forall|i: int, j: int| 0 <= i < j < rp.len() implies yx_lt(rp[i], rp[j]) by {
        assert(yx_lt(gp[i], gp[j]));
    }
    assert forall|i: int, j: int| 0 <= i < j < 4 implies rp[i] != rp[j] by {
        assert(yx_lt(rp[i], rp[j]));
    }
    assert forall|p: (int, int)| rp.contains(p) implies images.contains(p) by {
        let k = choose|k: int| 0 <= k < rp.len() && rp[k] == p;
        assert(gp.contains(gp[k]));
        if gp[k] == img0 {
            assert(images[0] == p);
        } else if gp[k] == img1 {
            assert(images[1] == p);
        } else if gp[k] == img2 {
            assert(images[2] == p);
        } else {
            assert(images[3] == p);
        }
    }
    assert forall|p: (int, int)| images.contains(p) implies rp.contains(p) by {
        let i = choose|i: int| 0 <= i < images.len() && images[i] == p;
        let img = if i == 0 {
            img0
        } else if i == 1 {
            img1
        } else if i == 2 {
            img2
        } else {
            img3
        };
        assert(gp.contains(img));
        let k = choose|k: int| 0 <= k < gp.len() && gp[k] == img;
        assert(rp[k] == p);
    }
}

/// The unique clockwise rotation candidate of `p0`, characterized by the
/// rotation engine's contract.
pub open spec fn is_cw_candidate(p0: Piece, q: Piece) -> bool {
    match cw_offset(p0.shape, p0.orientation, p0.lo_x(), p0.lo_y()) {
        None => false,
        Some(off) => {
            &&& q.shape == p0.shape
            &&& q.orientation == next_orientation(p0.orientation)
            &&& strictly_sorted_yx(q.pts())
            &&& forall|p: (int, int)|
                q.pts().contains(p) <==> cw_images(p0, off.0, off.1).contains(p)
        },
    }
}

/// Likewise counter-clockwise.
pub open spec fn is_ccw_candidate(p0: Piece, q: Piece) -> bool {
    match ccw_offset(p0.shape, p0.orientation, p0.lo_x(), p0.lo_y()) {
        None => false,
        Some(off) => {
            &&& q.shape == p0.shape
            &&& q.orientation == prev_orientation(p0.orientation)
            &&& strictly_sorted_yx(q.pts())
            &&& forall|p: (int, int)|
                q.pts().contains(p) <==> ccw_images(p0, off.0, off.1).contains(p)
        },
    }
}

} // verus!
