//! Engine-wide geometric properties of the rotation algorithm, proved once
//! and for all: each rotation step carries a piece from one canonical shape
//! layout to the next, four steps in either direction close the cycle, and
//! the square piece never moves.

use vstd::prelude::*;
use crate::piece::{is_spawn_of, next_orientation, prev_orientation, Orientation, Piece, Point, Shape};
use crate::rotate::{
    ccw_images, ccw_offset, cw_images, cw_offset, is_ccw_candidate, is_cw_candidate,
    lemma_sorted_unique, strictly_sorted_yx, yx_lt,
};

verus! {

/// The cells of each shape in each orientation, as offsets from the
/// piece's lower-left bounding corner, in row-major order.
pub open spec fn layout(shape: Shape, o: Orientation) -> Seq<(int, int)> {
    match (shape, o) {
        (Shape::OrangeRicky, Orientation::One) => seq![(0, 0), (0, 1), (1, 1), (2, 1)],
        (Shape::OrangeRicky, Orientation::Two) => seq![(1, 0), (1, 1), (0, 2), (1, 2)],
        (Shape::OrangeRicky, Orientation::Three) => seq![(0, 0), (1, 0), (2, 0), (2, 1)],
        (Shape::OrangeRicky, Orientation::Four) => seq![(0, 0), (1, 0), (0, 1), (0, 2)],
        (Shape::BlueRicky, Orientation::One) => seq![(2, 0), (0, 1), (1, 1), (2, 1)],
        (Shape::BlueRicky, Orientation::Two) => seq![(0, 0), (1, 0), (1, 1), (1, 2)],
        (Shape::BlueRicky, Orientation::Three) => seq![(0, 0), (1, 0), (2, 0), (0, 1)],
        (Shape::BlueRicky, Orientation::Four) => seq![(0, 0), (0, 1), (0, 2), (1, 2)],
        (Shape::ClevelandZ, Orientation::One) => seq![(1, 0), (2, 0), (0, 1), (1, 1)],
        (Shape::ClevelandZ, Orientation::Two) => seq![(0, 0), (0, 1), (1, 1), (1, 2)],
        (Shape::ClevelandZ, Orientation::Three) => seq![(1, 0), (2, 0), (0, 1), (1, 1)],
        (Shape::ClevelandZ, Orientation::Four) => seq![(0, 0), (0, 1), (1, 1), (1, 2)],
        (Shape::RhodeIslandZ, Orientation::One) => seq![(0, 0), (1, 0), (1, 1), (2, 1)],
        (Shape::RhodeIslandZ, Orientation::Two) => seq![(1, 0), (0, 1), (1, 1), (0, 2)],
        (Shape::RhodeIslandZ, Orientation::Three) => seq![(0, 0), (1, 0), (1, 1), (2, 1)],
        (Shape::RhodeIslandZ, Orientation::Four) => seq![(1, 0), (0, 1), (1, 1), (0, 2)],
        (Shape::Hero, Orientation::One) => seq![(0, 0), (1, 0), (2, 0), (3, 0)],
        (Shape::Hero, Orientation::Two) => seq![(0, 0), (0, 1), (0, 2), (0, 3)],
        (Shape::Hero, Orientation::Three) => seq![(0, 0), (1, 0), (2, 0), (3, 0)],
        (Shape::Hero, Orientation::Four) => seq![(0, 0), (0, 1), (0, 2), (0, 3)],
        (Shape::Teewee, Orientation::One) => seq![(1, 0), (0, 1), (1, 1), (2, 1)],
        (Shape::Teewee, Orientation::Two) => seq![(1, 0), (0, 1), (1, 1), (1, 2)],
        (Shape::Teewee, Orientation::Three) => seq![(0, 0), (1, 0), (2, 0), (1, 1)],
        (Shape::Teewee, Orientation::Four) => seq![(0, 0), (0, 1), (1, 1), (0, 2)],
        (Shape::Smashboy, Orientation::One) => seq![(0, 0), (1, 0), (0, 1), (1, 1)],
        (Shape::Smashboy, Orientation::Two) => seq![(0, 0), (1, 0), (0, 1), (1, 1)],
        (Shape::Smashboy, Orientation::Three) => seq![(0, 0), (1, 0), (0, 1), (1, 1)],
        (Shape::Smashboy, Orientation::Four) => seq![(0, 0), (1, 0), (0, 1), (1, 1)],
    }
}

/// How the lower-left anchor moves under one clockwise rotation.
pub open spec fn cw_anchor_step(shape: Shape, o: Orientation) -> (int, int) {
    match (shape, o) {
        (Shape::OrangeRicky, Orientation::One) => (0, 0),
        (Shape::OrangeRicky, Orientation::Two) => (0, 1),
        (Shape::OrangeRicky, Orientation::Three) => (1, -1),
        (Shape::OrangeRicky, Orientation::Four) => (-1, 0),
        (Shape::BlueRicky, Orientation::One) => (0, 0),
        (Shape::BlueRicky, Orientation::Two) => (0, 1),
        (Shape::BlueRicky, Orientation::Three) => (1, -1),
        (Shape::BlueRicky, Orientation::Four) => (-1, 0),
        (Shape::ClevelandZ, Orientation::One) => (1, 0),
        (Shape::ClevelandZ, Orientation::Two) => (-1, 0),
        (Shape::ClevelandZ, Orientation::Three) => (1, 0),
        (Shape::ClevelandZ, Orientation::Four) => (-1, 0),
        (Shape::RhodeIslandZ, Orientation::One) => (1, 0),
        (Shape::RhodeIslandZ, Orientation::Two) => (-1, 0),
        (Shape::RhodeIslandZ, Orientation::Three) => (1, 0),
        (Shape::RhodeIslandZ, Orientation::Four) => (-1, 0),
        (Shape::Hero, Orientation::One) => (2, -1),
        (Shape::Hero, Orientation::Two) => (-2, 1),
        (Shape::Hero, Orientation::Three) => (2, -1),
        (Shape::Hero, Orientation::Four) => (-2, 1),
        (Shape::Teewee, Orientation::One) => (0, 0),
        (Shape::Teewee, Orientation::Two) => (0, 1),
        (Shape::Teewee, Orientation::Three) => (1, -1),
        (Shape::Teewee, Orientation::Four) => (-1, 0),
        (Shape::Smashboy, Orientation::One) => (0, 0),
        (Shape::Smashboy, Orientation::Two) => (0, 0),
        (Shape::Smashboy, Orientation::Three) => (0, 0),
        (Shape::Smashboy, Orientation::Four) => (0, 0),
    }
}

/// How the lower-left anchor moves under one counter-clockwise rotation.
pub open spec fn ccw_anchor_step(shape: Shape, o: Orientation) -> (int, int) {
    match (shape, o) {
        (Shape::OrangeRicky, Orientation::One) => (1, 0),
        (Shape::OrangeRicky, Orientation::Two) => (0, 0),
        (Shape::OrangeRicky, Orientation::Three) => (0, -1),
        (Shape::OrangeRicky, Orientation::Four) => (-1, 1),
        (Shape::BlueRicky, Orientation::One) => (1, 0),
        (Shape::BlueRicky, Orientation::Two) => (0, 0),
        (Shape::BlueRicky, Orientation::Three) => (0, -1),
        (Shape::BlueRicky, Orientation::Four) => (-1, 1),
        (Shape::ClevelandZ, Orientation::One) => (1, 0),
        (Shape::ClevelandZ, Orientation::Two) => (-1, 0),
        (Shape::ClevelandZ, Orientation::Three) => (1, 0),
        (Shape::ClevelandZ, Orientation::Four) => (-1, 0),
        (Shape::RhodeIslandZ, Orientation::One) => (1, 0),
        (Shape::RhodeIslandZ, Orientation::Two) => (-1, 0),
        (Shape::RhodeIslandZ, Orientation::Three) => (1, 0),
        (Shape::RhodeIslandZ, Orientation::Four) => (-1, 0),
        (Shape::Hero, Orientation::One) => (2, -1),
        (Shape::Hero, Orientation::Two) => (-2, 1),
        (Shape::Hero, Orientation::Three) => (2, -1),
        (Shape::Hero, Orientation::Four) => (-2, 1),
        (Shape::Teewee, Orientation::One) => (1, 0),
        (Shape::Teewee, Orientation::Two) => (0, 0),
        (Shape::Teewee, Orientation::Three) => (0, -1),
        (Shape::Teewee, Orientation::Four) => (-1, 1),
        (Shape::Smashboy, Orientation::One) => (0, 0),
        (Shape::Smashboy, Orientation::Two) => (0, 0),
        (Shape::Smashboy, Orientation::Three) => (0, 0),
        (Shape::Smashboy, Orientation::Four) => (0, 0),
    }
}

/// The layout of `shape` in orientation `o`, translated to anchor
/// `(ax, ay)`.
pub open spec fn at_anchor(shape: Shape, o: Orientation, ax: int, ay: int) -> Seq<(int, int)> {
    layout(shape, o).map_values(|d: (int, int)| (d.0 + ax, d.1 + ay))
}

/// The piece's cells are exactly its shape's canonical layout for its
/// orientation, anchored at its own lower-left corner. Every piece the
/// engine ever produces satisfies this.
pub open spec fn wf_layout(p: Piece) -> bool {
    p.pts() == at_anchor(p.shape, p.orientation, p.lo_x(), p.lo_y())
}

/// A four-element sequence contains exactly its four entries.
proof fn lemma_quad_members(s: Seq<(int, int)>)
    requires
        s.len() == 4,
    ensures
        forall|p: (int, int)| s.contains(p) <==> (p == s[0] || p == s[1] || p == s[2] || p == s[3]),
{
    assert forall|p: (int, int)|
        s.contains(p) implies (p == s[0] || p == s[1] || p == s[2] || p == s[3]) by {
        let k = choose|k: int| 0 <= k < s.len() && s[k] == p;
    }
    assert forall|p: (int, int)|
        (p == s[0] || p == s[1] || p == s[2] || p == s[3]) implies s.contains(p) by {}
}

/// A strictly sorted sequence whose members are four given cells is their
/// sorted arrangement.
proof fn lemma_step_case(
    q: Piece,
    i0: (int, int),
    i1: (int, int),
    i2: (int, int),
    i3: (int, int),
    e0: (int, int),
    e1: (int, int),
    e2: (int, int),
    e3: (int, int),
)
    requires
        strictly_sorted_yx(q.pts()),
        yx_lt(e0, e1) && yx_lt(e1, e2) && yx_lt(e2, e3),
        e0 == i0 || e0 == i1 || e0 == i2 || e0 == i3,
        e1 == i0 || e1 == i1 || e1 == i2 || e1 == i3,
        e2 == i0 || e2 == i1 || e2 == i2 || e2 == i3,
        e3 == i0 || e3 == i1 || e3 == i2 || e3 == i3,
        i0 == e0 || i0 == e1 || i0 == e2 || i0 == e3,
        i1 == e0 || i1 == e1 || i1 == e2 || i1 == e3,
        i2 == e0 || i2 == e1 || i2 == e2 || i2 == e3,
        i3 == e0 || i3 == e1 || i3 == e2 || i3 == e3,
        forall|pt: (int, int)|
            q.pts().contains(pt) <==> (pt == i0 || pt == i1 || pt == i2 || pt == i3),
    ensures
        q.pts() == seq![e0, e1, e2, e3],
{
    let e = seq![e0, e1, e2, e3];
    assert(e[0] == e0 && e[1] == e1 && e[2] == e2 && e[3] == e3);
    assert forall|i: int, j: int| 0 <= i < j < e.len() implies yx_lt(e[i], e[j]) by {
        assert(yx_lt(e0, e2) && yx_lt(e0, e3) && yx_lt(e1, e3));
    }
    assert forall|pt: (int, int)|
        e.contains(pt) implies (pt == i0 || pt == i1 || pt == i2 || pt == i3) by {
        let k = choose|k: int| 0 <= k < e.len() && e[k] == pt;
        assert(pt == e0 || pt == e1 || pt == e2 || pt == e3);
    }
    assert forall|pt: (int, int)|
        (pt == i0 || pt == i1 || pt == i2 || pt == i3) implies e.contains(pt) by {
        assert(pt == e0 || pt == e1 || pt == e2 || pt == e3);
        if pt == e0 {
            assert(e[0] == pt);
        } else if pt == e1 {
            assert(e[1] == pt);
        } else if pt == e2 {
            assert(e[2] == pt);
        } else {
            assert(e[3] == pt);
        }
    }
    assert forall|pt: (int, int)| q.pts().contains(pt) <==> e.contains(pt) by {}
    lemma_sorted_unique(q.pts(), e);
}

/// A freshly spawned piece is in the canonical layout of its shape,
/// anchored at its origin.
pub proof fn lemma_spawn_layout(p: Piece, origin: Point)
    requires
        is_spawn_of(p, origin),
    ensures
        wf_layout(p),
        p.lo_x() == origin.x,
        p.lo_y() == origin.y,
{
    match p.shape {
        Shape::OrangeRicky => {
            assert(p.pts()[0] == p.points@[0].sp());
            assert(p.pts()[1] == p.points@[1].sp());
            assert(p.pts()[2] == p.points@[2].sp());
            assert(p.pts()[3] == p.points@[3].sp());
            assert(p.pts()[0] == (origin.x + 0, origin.y + 0));
            assert(p.pts()[1] == (origin.x + 0, origin.y + 1));
            assert(p.pts()[2] == (origin.x + 1, origin.y + 1));
            assert(p.pts()[3] == (origin.x + 2, origin.y + 1));
            assert(at_anchor(p.shape, p.orientation, origin.x as int, origin.y as int)[0] == (origin.x + 0, origin.y + 0));
            assert(at_anchor(p.shape, p.orientation, origin.x as int, origin.y as int)[1] == (origin.x + 0, origin.y + 1));
            assert(at_anchor(p.shape, p.orientation, origin.x as int, origin.y as int)[2] == (origin.x + 1, origin.y + 1));
            assert(at_anchor(p.shape, p.orientation, origin.x as int, origin.y as int)[3] == (origin.x + 2, origin.y + 1));
            assert(p.lo_x() == origin.x);
            assert(p.lo_y() == origin.y);
            assert(p.pts() =~= at_anchor(p.shape, p.orientation, origin.x as int, origin.y as int));
        },
        Shape::BlueRicky => {
            assert(p.pts()[0] == p.points@[0].sp());
            assert(p.pts()[1] == p.points@[1].sp());
            assert(p.pts()[2] == p.points@[2].sp());
            assert(p.pts()[3] == p.points@[3].sp());
            assert(p.pts()[0] == (origin.x + 2, origin.y + 0));
            assert(p.pts()[1] == (origin.x + 0, origin.y + 1));
            assert(p.pts()[2] == (origin.x + 1, origin.y + 1));
            assert(p.pts()[3] == (origin.x + 2, origin.y + 1));
            assert(at_anchor(p.shape, p.orientation, origin.x as int, origin.y as int)[0] == (origin.x + 2, origin.y + 0));
            assert(at_anchor(p.shape, p.orientation, origin.x as int, origin.y as int)[1] == (origin.x + 0, origin.y + 1));
            assert(at_anchor(p.shape, p.orientation, origin.x as int, origin.y as int)[2] == (origin.x + 1, origin.y + 1));
            assert(at_anchor(p.shape, p.orientation, origin.x as int, origin.y as int)[3] == (origin.x + 2, origin.y + 1));
            assert(p.lo_x() == origin.x);
            assert(p.lo_y() == origin.y);
            assert(p.pts() =~= at_anchor(p.shape, p.orientation, origin.x as int, origin.y as int));
        },
        Shape::ClevelandZ => {
            assert(p.pts()[0] == p.points@[0].sp());
            assert(p.pts()[1] == p.points@[1].sp());
            assert(p.pts()[2] == p.points@[2].sp());
            assert(p.pts()[3] == p.points@[3].sp());
            assert(p.pts()[0] == (origin.x + 1, origin.y + 0));
            assert(p.pts()[1] == (origin.x + 2, origin.y + 0));
            assert(p.pts()[2] == (origin.x + 0, origin.y + 1));
            assert(p.pts()[3] == (origin.x + 1, origin.y + 1));
            assert(at_anchor(p.shape, p.orientation, origin.x as int, origin.y as int)[0] == (origin.x + 1, origin.y + 0));
            assert(at_anchor(p.shape, p.orientation, origin.x as int, origin.y as int)[1] == (origin.x + 2, origin.y + 0));
            assert(at_anchor(p.shape, p.orientation, origin.x as int, origin.y as int)[2] == (origin.x + 0, origin.y + 1));
            assert(at_anchor(p.shape, p.orientation, origin.x as int, origin.y as int)[3] == (origin.x + 1, origin.y + 1));
            assert(p.lo_x() == origin.x);
            assert(p.lo_y() == origin.y);
            assert(p.pts() =~= at_anchor(p.shape, p.orientation, origin.x as int, origin.y as int));
        },
        Shape::RhodeIslandZ => {
            assert(p.pts()[0] == p.points@[0].sp());
            assert(p.pts()[1] == p.points@[1].sp());
            assert(p.pts()[2] == p.points@[2].sp());
            assert(p.pts()[3] == p.points@[3].sp());
            assert(p.pts()[0] == (origin.x + 0, origin.y + 0));
            assert(p.pts()[1] == (origin.x + 1, origin.y + 0));
            assert(p.pts()[2] == (origin.x + 1, origin.y + 1));
            assert(p.pts()[3] == (origin.x + 2, origin.y + 1));
            assert(at_anchor(p.shape, p.orientation, origin.x as int, origin.y as int)[0] == (origin.x + 0, origin.y + 0));
            assert(at_anchor(p.shape, p.orientation, origin.x as int, origin.y as int)[1] == (origin.x + 1, origin.y + 0));
            assert(at_anchor(p.shape, p.orientation, origin.x as int, origin.y as int)[2] == (origin.x + 1, origin.y + 1));
            assert(at_anchor(p.shape, p.orientation, origin.x as int, origin.y as int)[3] == (origin.x + 2, origin.y + 1));
            assert(p.lo_x() == origin.x);
            assert(p.lo_y() == origin.y);
            assert(p.pts() =~= at_anchor(p.shape, p.orientation, origin.x as int, origin.y as int));
        },
        Shape::Hero => {
            assert(p.pts()[0] == p.points@[0].sp());
            assert(p.pts()[1] == p.points@[1].sp());
            assert(p.pts()[2] == p.points@[2].sp());
            assert(p.pts()[3] == p.points@[3].sp());
            assert(p.pts()[0] == (origin.x + 0, origin.y + 0));
            assert(p.pts()[1] == (origin.x + 1, origin.y + 0));
            assert(p.pts()[2] == (origin.x + 2, origin.y + 0));
            assert(p.pts()[3] == (origin.x + 3, origin.y + 0));
            assert(at_anchor(p.shape, p.orientation, origin.x as int, origin.y as int)[0] == (origin.x + 0, origin.y + 0));
            assert(at_anchor(p.shape, p.orientation, origin.x as int, origin.y as int)[1] == (origin.x + 1, origin.y + 0));
            assert(at_anchor(p.shape, p.orientation, origin.x as int, origin.y as int)[2] == (origin.x + 2, origin.y + 0));
            assert(at_anchor(p.shape, p.orientation, origin.x as int, origin.y as int)[3] == (origin.x + 3, origin.y + 0));
            assert(p.lo_x() == origin.x);
            assert(p.lo_y() == origin.y);
            assert(p.pts() =~= at_anchor(p.shape, p.orientation, origin.x as int, origin.y as int));
        },
        Shape::Teewee => {
            assert(p.pts()[0] == p.points@[0].sp());
            assert(p.pts()[1] == p.points@[1].sp());
            assert(p.pts()[2] == p.points@[2].sp());
            assert(p.pts()[3] == p.points@[3].sp());
            assert(p.pts()[0] == (origin.x + 1, origin.y + 0));
            assert(p.pts()[1] == (origin.x + 0, origin.y + 1));
            assert(p.pts()[2] == (origin.x + 1, origin.y + 1));
            assert(p.pts()[3] == (origin.x + 2, origin.y + 1));
            assert(at_anchor(p.shape, p.orientation, origin.x as int, origin.y as int)[0] == (origin.x + 1, origin.y + 0));
            assert(at_anchor(p.shape, p.orientation, origin.x as int, origin.y as int)[1] == (origin.x + 0, origin.y + 1));
            assert(at_anchor(p.shape, p.orientation, origin.x as int, origin.y as int)[2] == (origin.x + 1, origin.y + 1));
            assert(at_anchor(p.shape, p.orientation, origin.x as int, origin.y as int)[3] == (origin.x + 2, origin.y + 1));
            assert(p.lo_x() == origin.x);
            assert(p.lo_y() == origin.y);
            assert(p.pts() =~= at_anchor(p.shape, p.orientation, origin.x as int, origin.y as int));
        },
        Shape::Smashboy => {
            assert(p.pts()[0] == p.points@[0].sp());
            assert(p.pts()[1] == p.points@[1].sp());
            assert(p.pts()[2] == p.points@[2].sp());
            assert(p.pts()[3] == p.points@[3].sp());
            assert(p.pts()[0] == (origin.x + 0, origin.y + 0));
            assert(p.pts()[1] == (origin.x + 1, origin.y + 0));
            assert(p.pts()[2] == (origin.x + 0, origin.y + 1));
            assert(p.pts()[3] == (origin.x + 1, origin.y + 1));
            assert(at_anchor(p.shape, p.orientation, origin.x as int, origin.y as int)[0] == (origin.x + 0, origin.y + 0));
            assert(at_anchor(p.shape, p.orientation, origin.x as int, origin.y as int)[1] == (origin.x + 1, origin.y + 0));
            assert(at_anchor(p.shape, p.orientation, origin.x as int, origin.y as int)[2] == (origin.x + 0, origin.y + 1));
            assert(at_anchor(p.shape, p.orientation, origin.x as int, origin.y as int)[3] == (origin.x + 1, origin.y + 1));
            assert(p.lo_x() == origin.x);
            assert(p.lo_y() == origin.y);
            assert(p.pts() =~= at_anchor(p.shape, p.orientation, origin.x as int, origin.y as int));
        },
    }
}

#[verifier::rlimit(80)]
#[verifier::spinoff_prover]
proof fn lemma_cw_step_orange_ricky(p: Piece, q: Piece)
    requires
        p.shape == Shape::OrangeRicky,
        wf_layout(p),
        is_cw_candidate(p, q),
    ensures
        q.shape == p.shape,
        q.orientation == next_orientation(p.orientation),
        wf_layout(q),
        q.lo_x() == p.lo_x() + cw_anchor_step(p.shape, p.orientation).0,
        q.lo_y() == p.lo_y() + cw_anchor_step(p.shape, p.orientation).1,
{
    let ax = p.lo_x();
    let ay = p.lo_y();
    match p.orientation {
        Orientation::One => {
            assert(p.pts()[0] == p.points@[0].sp());
            assert(p.pts()[1] == p.points@[1].sp());
            assert(p.pts()[2] == p.points@[2].sp());
            assert(p.pts()[3] == p.points@[3].sp());
            assert(at_anchor(p.shape, p.orientation, ax, ay)[0] == (ax, ay));
            assert(at_anchor(p.shape, p.orientation, ax, ay)[1] == (ax, ay + 1));
            assert(at_anchor(p.shape, p.orientation, ax, ay)[2] == (ax + 1, ay + 1));
            assert(at_anchor(p.shape, p.orientation, ax, ay)[3] == (ax + 2, ay + 1));
            assert(p.pts()[0] == (ax, ay));
            assert(p.pts()[1] == (ax, ay + 1));
            assert(p.pts()[2] == (ax + 1, ay + 1));
            assert(p.pts()[3] == (ax + 2, ay + 1));
            assert(p.hi_x() == ax + 2);
            assert(p.hi_y() == ay + 1);
            assert(cw_offset(p.shape, p.orientation, ax, ay) is Some);
            assert(cw_offset(p.shape, p.orientation, ax, ay) == Some((ax, ay)));
            let images = cw_images(p, ax, ay);
            assert(images.len() == 4);
            assert(images[0] == (ax, ay + 2));
            assert(images[1] == (ax + 1, ay + 2));
            assert(images[2] == (ax + 1, ay + 1));
            assert(images[3] == (ax + 1, ay));
            lemma_quad_members(images);
            assert forall|pt: (int, int)| q.pts().contains(pt) <==> (pt == (ax, ay + 2) || pt == (ax + 1, ay + 2) || pt == (ax + 1, ay + 1) || pt == (ax + 1, ay)) by {}
            lemma_step_case(q, (ax, ay + 2), (ax + 1, ay + 2), (ax + 1, ay + 1), (ax + 1, ay), (ax + 1, ay), (ax + 1, ay + 1), (ax, ay + 2), (ax + 1, ay + 2));
            assert(q.pts() == seq![(ax + 1, ay), (ax + 1, ay + 1), (ax, ay + 2), (ax + 1, ay + 2)]);
            assert(q.pts()[0] == q.points@[0].sp());
            assert(q.pts()[1] == q.points@[1].sp());
            assert(q.pts()[2] == q.points@[2].sp());
            assert(q.pts()[3] == q.points@[3].sp());
            assert(q.lo_x() == ax);
            assert(q.lo_y() == ay);
            assert(at_anchor(q.shape, q.orientation, ax, ay)[0] == (ax + 1, ay));
            assert(at_anchor(q.shape, q.orientation, ax, ay)[1] == (ax + 1, ay + 1));
            assert(at_anchor(q.shape, q.orientation, ax, ay)[2] == (ax, ay + 2));
            assert(at_anchor(q.shape, q.orientation, ax, ay)[3] == (ax + 1, ay + 2));
            assert(q.pts() =~= at_anchor(q.shape, q.orientation, ax, ay));
        },
        Orientation::Two => {
            assert(p.pts()[0] == p.points@[0].sp());
            assert(p.pts()[1] == p.points@[1].sp());
            assert(p.pts()[2] == p.points@[2].sp());
            assert(p.pts()[3] == p.points@[3].sp());
            assert(at_anchor(p.shape, p.orientation, ax, ay)[0] == (ax + 1, ay));
            assert(at_anchor(p.shape, p.orientation, ax, ay)[1] == (ax + 1, ay + 1));
            assert(at_anchor(p.shape, p.orientation, ax, ay)[2] == (ax, ay + 2));
            assert(at_anchor(p.shape, p.orientation, ax, ay)[3] == (ax + 1, ay + 2));
            assert(p.pts()[0] == (ax + 1, ay));
            assert(p.pts()[1] == (ax + 1, ay + 1));
            assert(p.pts()[2] == (ax, ay + 2));
            assert(p.pts()[3] == (ax + 1, ay + 2));
            assert(p.hi_x() == ax + 1);
            assert(p.hi_y() == ay + 2);
            assert(cw_offset(p.shape, p.orientation, ax, ay) is Some);
            assert(cw_offset(p.shape, p.orientation, ax, ay) == Some((ax, ay + 1)));
            let images = cw_images(p, ax, ay + 1);
            assert(images.len() == 4);
            assert(images[0] == (ax, ay + 1));
            assert(images[1] == (ax + 1, ay + 1));
            assert(images[2] == (ax + 2, ay + 2));
            assert(images[3] == (ax + 2, ay + 1));
            lemma_quad_members(images);
            assert forall|pt: (int, int)| q.pts().contains(pt) <==> (pt == (ax, ay + 1) || pt == (ax + 1, ay + 1) || pt == (ax + 2, ay + 2) || pt == (ax + 2, ay + 1)) by {}
            lemma_step_case(q, (ax, ay + 1), (ax + 1, ay + 1), (ax + 2, ay + 2), (ax + 2, ay + 1), (ax, ay + 1), (ax + 1, ay + 1), (ax + 2, ay + 1), (ax + 2, ay + 2));
            assert(q.pts() == seq![(ax, ay + 1), (ax + 1, ay + 1), (ax + 2, ay + 1), (ax + 2, ay + 2)]);
            assert(q.pts()[0] == q.points@[0].sp());
            assert(q.pts()[1] == q.points@[1].sp());
            assert(q.pts()[2] == q.points@[2].sp());
            assert(q.pts()[3] == q.points@[3].sp());
            assert(q.lo_x() == ax);
            assert(q.lo_y() == ay + 1);
            assert(at_anchor(q.shape, q.orientation, ax, ay + 1)[0] == (ax, ay + 1));
            assert(at_anchor(q.shape, q.orientation, ax, ay + 1)[1] == (ax + 1, ay + 1));
            assert(at_anchor(q.shape, q.orientation, ax, ay + 1)[2] == (ax + 2, ay + 1));
            assert(at_anchor(q.shape, q.orientation, ax, ay + 1)[3] == (ax + 2, ay + 2));
            assert(q.pts() =~= at_anchor(q.shape, q.orientation, ax, ay + 1));
        },
        Orientation::Three => {
            assert(p.pts()[0] == p.points@[0].sp());
            assert(p.pts()[1] == p.points@[1].sp());
            assert(p.pts()[2] == p.points@[2].sp());
            assert(p.pts()[3] == p.points@[3].sp());
            assert(at_anchor(p.shape, p.orientation, ax, ay)[0] == (ax, ay));
            assert(at_anchor(p.shape, p.orientation, ax, ay)[1] == (ax + 1, ay));
            assert(at_anchor(p.shape, p.orientation, ax, ay)[2] == (ax + 2, ay));
            assert(at_anchor(p.shape, p.orientation, ax, ay)[3] == (ax + 2, ay + 1));
            assert(p.pts()[0] == (ax, ay));
            assert(p.pts()[1] == (ax + 1, ay));
            assert(p.pts()[2] == (ax + 2, ay));
            assert(p.pts()[3] == (ax + 2, ay + 1));
            assert(p.hi_x() == ax + 2);
            assert(p.hi_y() == ay + 1);
            assert(cw_offset(p.shape, p.orientation, ax, ay) is Some);
            assert(cw_offset(p.shape, p.orientation, ax, ay) == Some((ax + 1, ay - 1)));
            let images = cw_images(p, ax + 1, ay - 1);
            assert(images.len() == 4);
            assert(images[0] == (ax + 1, ay + 1));
            assert(images[1] == (ax + 1, ay));
            assert(images[2] == (ax + 1, ay - 1));
            assert(images[3] == (ax + 2, ay - 1));
            lemma_quad_members(images);
            assert forall|pt: (int, int)| q.pts().contains(pt) <==> (pt == (ax + 1, ay + 1) || pt == (ax + 1, ay) || pt == (ax + 1, ay - 1) || pt == (ax + 2, ay - 1)) by {}
            lemma_step_case(q, (ax + 1, ay + 1), (ax + 1, ay), (ax + 1, ay - 1), (ax + 2, ay - 1), (ax + 1, ay - 1), (ax + 2, ay - 1), (ax + 1, ay), (ax + 1, ay + 1));
            assert(q.pts() == seq![(ax + 1, ay - 1), (ax + 2, ay - 1), (ax + 1, ay), (ax + 1, ay + 1)]);
            assert(q.pts()[0] == q.points@[0].sp());
            assert(q.pts()[1] == q.points@[1].sp());
            assert(q.pts()[2] == q.points@[2].sp());
            assert(q.pts()[3] == q.points@[3].sp());
            assert(q.lo_x() == ax + 1);
            assert(q.lo_y() == ay - 1);
            assert(at_anchor(q.shape, q.orientation, ax + 1, ay - 1)[0] == (ax + 1, ay - 1));
            assert(at_anchor(q.shape, q.orientation, ax + 1, ay - 1)[1] == (ax + 2, ay - 1));
            assert(at_anchor(q.shape, q.orientation, ax + 1, ay - 1)[2] == (ax + 1, ay));
            assert(at_anchor(q.shape, q.orientation, ax + 1, ay - 1)[3] == (ax + 1, ay + 1));
            assert(q.pts() =~= at_anchor(q.shape, q.orientation, ax + 1, ay - 1));
        },
        Orientation::Four => {
            assert(p.pts()[0] == p.points@[0].sp());
            assert(p.pts()[1] == p.points@[1].sp());
            assert(p.pts()[2] == p.points@[2].sp());
            assert(p.pts()[3] == p.points@[3].sp());
            assert(at_anchor(p.shape, p.orientation, ax, ay)[0] == (ax, ay));
            assert(at_anchor(p.shape, p.orientation, ax, ay)[1] == (ax + 1, ay));
            assert(at_anchor(p.shape, p.orientation, ax, ay)[2] == (ax, ay + 1));
            assert(at_anchor(p.shape, p.orientation, ax, ay)[3] == (ax, ay + 2));
            assert(p.pts()[0] == (ax, ay));
            assert(p.pts()[1] == (ax + 1, ay));
            assert(p.pts()[2] == (ax, ay + 1));
            assert(p.pts()[3] == (ax, ay + 2));
            assert(p.hi_x() == ax + 1);
            assert(p.hi_y() == ay + 2);
            assert(cw_offset(p.shape, p.orientation, ax, ay) is Some);
            assert(cw_offset(p.shape, p.orientation, ax, ay) == Some((ax - 1, ay)));
            let images = cw_images(p, ax - 1, ay);
            assert(images.len() == 4);
            assert(images[0] == (ax - 1, ay + 1));
            assert(images[1] == (ax - 1, ay));
            assert(images[2] == (ax, ay + 1));
            assert(images[3] == (ax + 1, ay + 1));
            lemma_quad_members(images);
            assert forall|pt: (int, int)| q.pts().contains(pt) <==> (pt == (ax - 1, ay + 1) || pt == (ax - 1, ay) || pt == (ax, ay + 1) || pt == (ax + 1, ay + 1)) by {}
            lemma_step_case(q, (ax - 1, ay + 1), (ax - 1, ay), (ax, ay + 1), (ax + 1, ay + 1), (ax - 1, ay), (ax - 1, ay + 1), (ax, ay + 1), (ax + 1, ay + 1));
            assert(q.pts() == seq![(ax - 1, ay), (ax - 1, ay + 1), (ax, ay + 1), (ax + 1, ay + 1)]);
            assert(q.pts()[0] == q.points@[0].sp());
            assert(q.pts()[1] == q.points@[1].sp());
            assert(q.pts()[2] == q.points@[2].sp());
            assert(q.pts()[3] == q.points@[3].sp());
            assert(q.lo_x() == ax - 1);
            assert(q.lo_y() == ay);
            assert(at_anchor(q.shape, q.orientation, ax - 1, ay)[0] == (ax - 1, ay));
            assert(at_anchor(q.shape, q.orientation, ax - 1, ay)[1] == (ax - 1, ay + 1));
            assert(at_anchor(q.shape, q.orientation, ax - 1, ay)[2] == (ax, ay + 1));
            assert(at_anchor(q.shape, q.orientation, ax - 1, ay)[3] == (ax + 1, ay + 1));
            assert(q.pts() =~= at_anchor(q.shape, q.orientation, ax - 1, ay));
        },
    }
}

#[verifier::rlimit(80)]
#[verifier::spinoff_prover]
proof fn lemma_cw_step_blue_ricky(p: Piece, q: Piece)
    requires
        p.shape == Shape::BlueRicky,
        wf_layout(p),
        is_cw_candidate(p, q),
    ensures
        q.shape == p.shape,
        q.orientation == next_orientation(p.orientation),
        wf_layout(q),
        q.lo_x() == p.lo_x() + cw_anchor_step(p.shape, p.orientation).0,
        q.lo_y() == p.lo_y() + cw_anchor_step(p.shape, p.orientation).1,
{
    let ax = p.lo_x();
    let ay = p.lo_y();
    match p.orientation {
        Orientation::One => {
            assert(p.pts()[0] == p.points@[0].sp());
            assert(p.pts()[1] == p.points@[1].sp());
            assert(p.pts()[2] == p.points@[2].sp());
            assert(p.pts()[3] == p.points@[3].sp());
            assert(at_anchor(p.shape, p.orientation, ax, ay)[0] == (ax + 2, ay));
            assert(at_anchor(p.shape, p.orientation, ax, ay)[1] == (ax, ay + 1));
            assert(at_anchor(p.shape, p.orientation, ax, ay)[2] == (ax + 1, ay + 1));
            assert(at_anchor(p.shape, p.orientation, ax, ay)[3] == (ax + 2, ay + 1));
            assert(p.pts()[0] == (ax + 2, ay));
            assert(p.pts()[1] == (ax, ay + 1));
            assert(p.pts()[2] == (ax + 1, ay + 1));
            assert(p.pts()[3] == (ax + 2, ay + 1));
            assert(p.hi_x() == ax + 2);
            assert(p.hi_y() == ay + 1);
            assert(cw_offset(p.shape, p.orientation, ax, ay) is Some);
            assert(cw_offset(p.shape, p.orientation, ax, ay) == Some((ax, ay)));
            let images = cw_images(p, ax, ay);
            assert(images.len() == 4);
            assert(images[0] == (ax, ay));
            assert(images[1] == (ax + 1, ay + 2));
            assert(images[2] == (ax + 1, ay + 1));
            assert(images[3] == (ax + 1, ay));
            lemma_quad_members(images);
            assert forall|pt: (int, int)| q.pts().contains(pt) <==> (pt == (ax, ay) || pt == (ax + 1, ay + 2) || pt == (ax + 1, ay + 1) || pt == (ax + 1, ay)) by {}
            lemma_step_case(q, (ax, ay), (ax + 1, ay + 2), (ax + 1, ay + 1), (ax + 1, ay), (ax, ay), (ax + 1, ay), (ax + 1, ay + 1), (ax + 1, ay + 2));
            assert(q.pts() == seq![(ax, ay), (ax + 1, ay), (ax + 1, ay + 1), (ax + 1, ay + 2)]);
            assert(q.pts()[0] == q.points@[0].sp());
            assert(q.pts()[1] == q.points@[1].sp());
            assert(q.pts()[2] == q.points@[2].sp());
            assert(q.pts()[3] == q.points@[3].sp());
            assert(q.lo_x() == ax);
            assert(q.lo_y() == ay);
            assert(at_anchor(q.shape, q.orientation, ax, ay)[0] == (ax, ay));
            assert(at_anchor(q.shape, q.orientation, ax, ay)[1] == (ax + 1, ay));
            assert(at_anchor(q.shape, q.orientation, ax, ay)[2] == (ax + 1, ay + 1));
            assert(at_anchor(q.shape, q.orientation, ax, ay)[3] == (ax + 1, ay + 2));
            assert(q.pts() =~= at_anchor(q.shape, q.orientation, ax, ay));
        },
        Orientation::Two => {
            assert(p.pts()[0] == p.points@[0].sp());
            assert(p.pts()[1] == p.points@[1].sp());
            assert(p.pts()[2] == p.points@[2].sp());
            assert(p.pts()[3] == p.points@[3].sp());
            assert(at_anchor(p.shape, p.orientation, ax, ay)[0] == (ax, ay));
            assert(at_anchor(p.shape, p.orientation, ax, ay)[1] == (ax + 1, ay));
            assert(at_anchor(p.shape, p.orientation, ax, ay)[2] == (ax + 1, ay + 1));
            assert(at_anchor(p.shape, p.orientation, ax, ay)[3] == (ax + 1, ay + 2));
            assert(p.pts()[0] == (ax, ay));
            assert(p.pts()[1] == (ax + 1, ay));
            assert(p.pts()[2] == (ax + 1, ay + 1));
            assert(p.pts()[3] == (ax + 1, ay + 2));
            assert(p.hi_x() == ax + 1);
            assert(p.hi_y() == ay + 2);
            assert(cw_offset(p.shape, p.orientation, ax, ay) is Some);
            assert(cw_offset(p.shape, p.orientation, ax, ay) == Some((ax, ay + 1)));
            let images = cw_images(p, ax, ay + 1);
            assert(images.len() == 4);
            assert(images[0] == (ax, ay + 2));
            assert(images[1] == (ax, ay + 1));
            assert(images[2] == (ax + 1, ay + 1));
            assert(images[3] == (ax + 2, ay + 1));
            lemma_quad_members(images);
            assert forall|pt: (int, int)| q.pts().contains(pt) <==> (pt == (ax, ay + 2) || pt == (ax, ay + 1) || pt == (ax + 1, ay + 1) || pt == (ax + 2, ay + 1)) by {}
            lemma_step_case(q, (ax, ay + 2), (ax, ay + 1), (ax + 1, ay + 1), (ax + 2, ay + 1), (ax, ay + 1), (ax + 1, ay + 1), (ax + 2, ay + 1), (ax, ay + 2));
            assert(q.pts() == seq![(ax, ay + 1), (ax + 1, ay + 1), (ax + 2, ay + 1), (ax, ay + 2)]);
            assert(q.pts()[0] == q.points@[0].sp());
            assert(q.pts()[1] == q.points@[1].sp());
            assert(q.pts()[2] == q.points@[2].sp());
            assert(q.pts()[3] == q.points@[3].sp());
            assert(q.lo_x() == ax);
            assert(q.lo_y() == ay + 1);
            assert(at_anchor(q.shape, q.orientation, ax, ay + 1)[0] == (ax, ay + 1));
            assert(at_anchor(q.shape, q.orientation, ax, ay + 1)[1] == (ax + 1, ay + 1));
            assert(at_anchor(q.shape, q.orientation, ax, ay + 1)[2] == (ax + 2, ay + 1));
            assert(at_anchor(q.shape, q.orientation, ax, ay + 1)[3] == (ax, ay + 2));
            assert(q.pts() =~= at_anchor(q.shape, q.orientation, ax, ay + 1));
        },
        Orientation::Three => {
            assert(p.pts()[0] == p.points@[0].sp());
            assert(p.pts()[1] == p.points@[1].sp());
            assert(p.pts()[2] == p.points@[2].sp());
            assert(p.pts()[3] == p.points@[3].sp());
            assert(at_anchor(p.shape, p.orientation, ax, ay)[0] == (ax, ay));
            assert(at_anchor(p.shape, p.orientation, ax, ay)[1] == (ax + 1, ay));
            assert(at_anchor(p.shape, p.orientation, ax, ay)[2] == (ax + 2, ay));
            assert(at_anchor(p.shape, p.orientation, ax, ay)[3] == (ax, ay + 1));
            assert(p.pts()[0] == (ax, ay));
            assert(p.pts()[1] == (ax + 1, ay));
            assert(p.pts()[2] == (ax + 2, ay));
            assert(p.pts()[3] == (ax, ay + 1));
            assert(p.hi_x() == ax + 2);
            assert(p.hi_y() == ay + 1);
            assert(cw_offset(p.shape, p.orientation, ax, ay) is Some);
            assert(cw_offset(p.shape, p.orientation, ax, ay) == Some((ax + 1, ay - 1)));
            let images = cw_images(p, ax + 1, ay - 1);
            assert(images.len() == 4);
            assert(images[0] == (ax + 1, ay + 1));
            assert(images[1] == (ax + 1, ay));
            assert(images[2] == (ax + 1, ay - 1));
            assert(images[3] == (ax + 2, ay + 1));
            lemma_quad_members(images);
            assert forall|pt: (int, int)| q.pts().contains(pt) <==> (pt == (ax + 1, ay + 1) || pt == (ax + 1, ay) || pt == (ax + 1, ay - 1) || pt == (ax + 2, ay + 1)) by {}
            lemma_step_case(q, (ax + 1, ay + 1), (ax + 1, ay), (ax + 1, ay - 1), (ax + 2, ay + 1), (ax + 1, ay - 1), (ax + 1, ay), (ax + 1, ay + 1), (ax + 2, ay + 1));
            assert(q.pts() == seq![(ax + 1, ay - 1), (ax + 1, ay), (ax + 1, ay + 1), (ax + 2, ay + 1)]);
            assert(q.pts()[0] == q.points@[0].sp());
            assert(q.pts()[1] == q.points@[1].sp());
            assert(q.pts()[2] == q.points@[2].sp());
            assert(q.pts()[3] == q.points@[3].sp());
            assert(q.lo_x() == ax + 1);
            assert(q.lo_y() == ay - 1);
            assert(at_anchor(q.shape, q.orientation, ax + 1, ay - 1)[0] == (ax + 1, ay - 1));
            assert(at_anchor(q.shape, q.orientation, ax + 1, ay - 1)[1] == (ax + 1, ay));
            assert(at_anchor(q.shape, q.orientation, ax + 1, ay - 1)[2] == (ax + 1, ay + 1));
            assert(at_anchor(q.shape, q.orientation, ax + 1, ay - 1)[3] == (ax + 2, ay + 1));
            assert(q.pts() =~= at_anchor(q.shape, q.orientation, ax + 1, ay - 1));
        },
        Orientation::Four => {
            assert(p.pts()[0] == p.points@[0].sp());
            assert(p.pts()[1] == p.points@[1].sp());
            assert(p.pts()[2] == p.points@[2].sp());
            assert(p.pts()[3] == p.points@[3].sp());
            assert(at_anchor(p.shape, p.orientation, ax, ay)[0] == (ax, ay));
            assert(at_anchor(p.shape, p.orientation, ax, ay)[1] == (ax, ay + 1));
            assert(at_anchor(p.shape, p.orientation, ax, ay)[2] == (ax, ay + 2));
            assert(at_anchor(p.shape, p.orientation, ax, ay)[3] == (ax + 1, ay + 2));
            assert(p.pts()[0] == (ax, ay));
            assert(p.pts()[1] == (ax, ay + 1));
            assert(p.pts()[2] == (ax, ay + 2));
            assert(p.pts()[3] == (ax + 1, ay + 2));
            assert(p.hi_x() == ax + 1);
            assert(p.hi_y() == ay + 2);
            assert(cw_offset(p.shape, p.orientation, ax, ay) is Some);
            assert(cw_offset(p.shape, p.orientation, ax, ay) == Some((ax - 1, ay)));
            let images = cw_images(p, ax - 1, ay);
            assert(images.len() == 4);
            assert(images[0] == (ax - 1, ay + 1));
            assert(images[1] == (ax, ay + 1));
            assert(images[2] == (ax + 1, ay + 1));
            assert(images[3] == (ax + 1, ay));
            lemma_quad_members(images);
            assert forall|pt: (int, int)| q.pts().contains(pt) <==> (pt == (ax - 1, ay + 1) || pt == (ax, ay + 1) || pt == (ax + 1, ay + 1) || pt == (ax + 1, ay)) by {}
            lemma_step_case(q, (ax - 1, ay + 1), (ax, ay + 1), (ax + 1, ay + 1), (ax + 1, ay), (ax + 1, ay), (ax - 1, ay + 1), (ax, ay + 1), (ax + 1, ay + 1));
            assert(q.pts() == seq![(ax + 1, ay), (ax - 1, ay + 1), (ax, ay + 1), (ax + 1, ay + 1)]);
            assert(q.pts()[0] == q.points@[0].sp());
            assert(q.pts()[1] == q.points@[1].sp());
            assert(q.pts()[2] == q.points@[2].sp());
            assert(q.pts()[3] == q.points@[3].sp());
            assert(q.lo_x() == ax - 1);
            assert(q.lo_y() == ay);
            assert(at_anchor(q.shape, q.orientation, ax - 1, ay)[0] == (ax + 1, ay));
            assert(at_anchor(q.shape, q.orientation, ax - 1, ay)[1] == (ax - 1, ay + 1));
            assert(at_anchor(q.shape, q.orientation, ax - 1, ay)[2] == (ax, ay + 1));
            assert(at_anchor(q.shape, q.orientation, ax - 1, ay)[3] == (ax + 1, ay + 1));
            assert(q.pts() =~= at_anchor(q.shape, q.orientation, ax - 1, ay));
        },
    }
}

#[verifier::rlimit(80)]
#[verifier::spinoff_prover]
proof fn lemma_cw_step_cleveland_z(p: Piece, q: Piece)
    requires
        p.shape == Shape::ClevelandZ,
        wf_layout(p),
        is_cw_candidate(p, q),
    ensures
        q.shape == p.shape,
        q.orientation == next_orientation(p.orientation),
        wf_layout(q),
        q.lo_x() == p.lo_x() + cw_anchor_step(p.shape, p.orientation).0,
        q.lo_y() == p.lo_y() + cw_anchor_step(p.shape, p.orientation).1,
{
    let ax = p.lo_x();
    let ay = p.lo_y();
    match p.orientation {
        Orientation::One => {
            assert(p.pts()[0] == p.points@[0].sp());
            assert(p.pts()[1] == p.points@[1].sp());
            assert(p.pts()[2] == p.points@[2].sp());
            assert(p.pts()[3] == p.points@[3].sp());
            assert(at_anchor(p.shape, p.orientation, ax, ay)[0] == (ax + 1, ay));
            assert(at_anchor(p.shape, p.orientation, ax, ay)[1] == (ax + 2, ay));
            assert(at_anchor(p.shape, p.orientation, ax, ay)[2] == (ax, ay + 1));
            assert(at_anchor(p.shape, p.orientation, ax, ay)[3] == (ax + 1, ay + 1));
            assert(p.pts()[0] == (ax + 1, ay));
            assert(p.pts()[1] == (ax + 2, ay));
            assert(p.pts()[2] == (ax, ay + 1));
            assert(p.pts()[3] == (ax + 1, ay + 1));
            assert(p.hi_x() == ax + 2);
            assert(p.hi_y() == ay + 1);
            assert(cw_offset(p.shape, p.orientation, ax, ay) is Some);
            assert(cw_offset(p.shape, p.orientation, ax, ay) == Some((ax + 1, ay)));
            let images = cw_images(p, ax + 1, ay);
            assert(images.len() == 4);
            assert(images[0] == (ax + 1, ay + 1));
            assert(images[1] == (ax + 1, ay));
            assert(images[2] == (ax + 2, ay + 2));
            assert(images[3] == (ax + 2, ay + 1));
            lemma_quad_members(images);
            assert forall|pt: (int, int)| q.pts().contains(pt) <==> (pt == (ax + 1, ay + 1) || pt == (ax + 1, ay) || pt == (ax + 2, ay + 2) || pt == (ax + 2, ay + 1)) by {}
            lemma_step_case(q, (ax + 1, ay + 1), (ax + 1, ay), (ax + 2, ay + 2), (ax + 2, ay + 1), (ax + 1, ay), (ax + 1, ay + 1), (ax + 2, ay + 1), (ax + 2, ay + 2));
            assert(q.pts() == seq![(ax + 1, ay), (ax + 1, ay + 1), (ax + 2, ay + 1), (ax + 2, ay + 2)]);
            assert(q.pts()[0] == q.points@[0].sp());
            assert(q.pts()[1] == q.points@[1].sp());
            assert(q.pts()[2] == q.points@[2].sp());
            assert(q.pts()[3] == q.points@[3].sp());
            assert(q.lo_x() == ax + 1);
            assert(q.lo_y() == ay);
            assert(at_anchor(q.shape, q.orientation, ax + 1, ay)[0] == (ax + 1, ay));
            assert(at_anchor(q.shape, q.orientation, ax + 1, ay)[1] == (ax + 1, ay + 1));
            assert(at_anchor(q.shape, q.orientation, ax + 1, ay)[2] == (ax + 2, ay + 1));
            assert(at_anchor(q.shape, q.orientation, ax + 1, ay)[3] == (ax + 2, ay + 2));
            assert(q.pts() =~= at_anchor(q.shape, q.orientation, ax + 1, ay));
        },
        Orientation::Two => {
            assert(p.pts()[0] == p.points@[0].sp());
            assert(p.pts()[1] == p.points@[1].sp());
            assert(p.pts()[2] == p.points@[2].sp());
            assert(p.pts()[3] == p.points@[3].sp());
            assert(at_anchor(p.shape, p.orientation, ax, ay)[0] == (ax, ay));
            assert(at_anchor(p.shape, p.orientation, ax, ay)[1] == (ax, ay + 1));
            assert(at_anchor(p.shape, p.orientation, ax, ay)[2] == (ax + 1, ay + 1));
            assert(at_anchor(p.shape, p.orientation, ax, ay)[3] == (ax + 1, ay + 2));
            assert(p.pts()[0] == (ax, ay));
            assert(p.pts()[1] == (ax, ay + 1));
            assert(p.pts()[2] == (ax + 1, ay + 1));
            assert(p.pts()[3] == (ax + 1, ay + 2));
            assert(p.hi_x() == ax + 1);
            assert(p.hi_y() == ay + 2);
            assert(cw_offset(p.shape, p.orientation, ax, ay) is Some);
            assert(cw_offset(p.shape, p.orientation, ax, ay) == Some((ax - 1, ay)));
            let images = cw_images(p, ax - 1, ay);
            assert(images.len() == 4);
            assert(images[0] == (ax - 1, ay + 1));
            assert(images[1] == (ax, ay + 1));
            assert(images[2] == (ax, ay));
            assert(images[3] == (ax + 1, ay));
            lemma_quad_members(images);
            assert forall|pt: (int, int)| q.pts().contains(pt) <==> (pt == (ax - 1, ay + 1) || pt == (ax, ay + 1) || pt == (ax, ay) || pt == (ax + 1, ay)) by {}
            lemma_step_case(q, (ax - 1, ay + 1), (ax, ay + 1), (ax, ay), (ax + 1, ay), (ax, ay), (ax + 1, ay), (ax - 1, ay + 1), (ax, ay + 1));
            assert(q.pts() == seq![(ax, ay), (ax + 1, ay), (ax - 1, ay + 1), (ax, ay + 1)]);
            assert(q.pts()[0] == q.points@[0].sp());
            assert(q.pts()[1] == q.points@[1].sp());
            assert(q.pts()[2] == q.points@[2].sp());
            assert(q.pts()[3] == q.points@[3].sp());
            assert(q.lo_x() == ax - 1);
            assert(q.lo_y() == ay);
            assert(at_anchor(q.shape, q.orientation, ax - 1, ay)[0] == (ax, ay));
            assert(at_anchor(q.shape, q.orientation, ax - 1, ay)[1] == (ax + 1, ay));
            assert(at_anchor(q.shape, q.orientation, ax - 1, ay)[2] == (ax - 1, ay + 1));
            assert(at_anchor(q.shape, q.orientation, ax - 1, ay)[3] == (ax, ay + 1));
            assert(q.pts() =~= at_anchor(q.shape, q.orientation, ax - 1, ay));
        },
        Orientation::Three => {
            assert(p.pts()[0] == p.points@[0].sp());
            assert(p.pts()[1] == p.points@[1].sp());
            assert(p.pts()[2] == p.points@[2].sp());
            assert(p.pts()[3] == p.points@[3].sp());
            assert(at_anchor(p.shape, p.orientation, ax, ay)[0] == (ax + 1, ay));
            assert(at_anchor(p.shape, p.orientation, ax, ay)[1] == (ax + 2, ay));
            assert(at_anchor(p.shape, p.orientation, ax, ay)[2] == (ax, ay + 1));
            assert(at_anchor(p.shape, p.orientation, ax, ay)[3] == (ax + 1, ay + 1));
            assert(p.pts()[0] == (ax + 1, ay));
            assert(p.pts()[1] == (ax + 2, ay));
            assert(p.pts()[2] == (ax, ay + 1));
            assert(p.pts()[3] == (ax + 1, ay + 1));
            assert(p.hi_x() == ax + 2);
            assert(p.hi_y() == ay + 1);
            assert(cw_offset(p.shape, p.orientation, ax, ay) is Some);
            assert(cw_offset(p.shape, p.orientation, ax, ay) == Some((ax + 1, ay)));
            let images = cw_images(p, ax + 1, ay);
            assert(images.len() == 4);
            assert(images[0] == (ax + 1, ay + 1));
            assert(images[1] == (ax + 1, ay));
            assert(images[2] == (ax + 2, ay + 2));
            assert(images[3] == (ax + 2, ay + 1));
            lemma_quad_members(images);
            assert forall|pt: (int, int)| q.pts().contains(pt) <==> (pt == (ax + 1, ay + 1) || pt == (ax + 1, ay) || pt == (ax + 2, ay + 2) || pt == (ax + 2, ay + 1)) by {}
            lemma_step_case(q, (ax + 1, ay + 1), (ax + 1, ay), (ax + 2, ay + 2), (ax + 2, ay + 1), (ax + 1, ay), (ax + 1, ay + 1), (ax + 2, ay + 1), (ax + 2, ay + 2));
            assert(q.pts() == seq![(ax + 1, ay), (ax + 1, ay + 1), (ax + 2, ay + 1), (ax + 2, ay + 2)]);
            assert(q.pts()[0] == q.points@[0].sp());
            assert(q.pts()[1] == q.points@[1].sp());
            assert(q.pts()[2] == q.points@[2].sp());
            assert(q.pts()[3] == q.points@[3].sp());
            assert(q.lo_x() == ax + 1);
            assert(q.lo_y() == ay);
            assert(at_anchor(q.shape, q.orientation, ax + 1, ay)[0] == (ax + 1, ay));
            assert(at_anchor(q.shape, q.orientation, ax + 1, ay)[1] == (ax + 1, ay + 1));
            assert(at_anchor(q.shape, q.orientation, ax + 1, ay)[2] == (ax + 2, ay + 1));
            assert(at_anchor(q.shape, q.orientation, ax + 1, ay)[3] == (ax + 2, ay + 2));
            assert(q.pts() =~= at_anchor(q.shape, q.orientation, ax + 1, ay));
        },
        Orientation::Four => {
            assert(p.pts()[0] == p.points@[0].sp());
            assert(p.pts()[1] == p.points@[1].sp());
            assert(p.pts()[2] == p.points@[2].sp());
            assert(p.pts()[3] == p.points@[3].sp());
            assert(at_anchor(p.shape, p.orientation, ax, ay)[0] == (ax, ay));
            assert(at_anchor(p.shape, p.orientation, ax, ay)[1] == (ax, ay + 1));
            assert(at_anchor(p.shape, p.orientation, ax, ay)[2] == (ax + 1, ay + 1));
            assert(at_anchor(p.shape, p.orientation, ax, ay)[3] == (ax + 1, ay + 2));
            assert(p.pts()[0] == (ax, ay));
            assert(p.pts()[1] == (ax, ay + 1));
            assert(p.pts()[2] == (ax + 1, ay + 1));
            assert(p.pts()[3] == (ax + 1, ay + 2));
            assert(p.hi_x() == ax + 1);
            assert(p.hi_y() == ay + 2);
            assert(cw_offset(p.shape, p.orientation, ax, ay) is Some);
            assert(cw_offset(p.shape, p.orientation, ax, ay) == Some((ax - 1, ay)));
            let images = cw_images(p, ax - 1, ay);
            assert(images.len() == 4);
            assert(images[0] == (ax - 1, ay + 1));
            assert(images[1] == (ax, ay + 1));
            assert(images[2] == (ax, ay));
            assert(images[3] == (ax + 1, ay));
            lemma_quad_members(images);
            assert forall|pt: (int, int)| q.pts().contains(pt) <==> (pt == (ax - 1, ay + 1) || pt == (ax, ay + 1) || pt == (ax, ay) || pt == (ax + 1, ay)) by {}
            lemma_step_case(q, (ax - 1, ay + 1), (ax, ay + 1), (ax, ay), (ax + 1, ay), (ax, ay), (ax + 1, ay), (ax - 1, ay + 1), (ax, ay + 1));
            assert(q.pts() == seq![(ax, ay), (ax + 1, ay), (ax - 1, ay + 1), (ax, ay + 1)]);
            assert(q.pts()[0] == q.points@[0].sp());
            assert(q.pts()[1] == q.points@[1].sp());
            assert(q.pts()[2] == q.points@[2].sp());
            assert(q.pts()[3] == q.points@[3].sp());
            assert(q.lo_x() == ax - 1);
            assert(q.lo_y() == ay);
            assert(at_anchor(q.shape, q.orientation, ax - 1, ay)[0] == (ax, ay));
            assert(at_anchor(q.shape, q.orientation, ax - 1, ay)[1] == (ax + 1, ay));
            assert(at_anchor(q.shape, q.orientation, ax - 1, ay)[2] == (ax - 1, ay + 1));
            assert(at_anchor(q.shape, q.orientation, ax - 1, ay)[3] == (ax, ay + 1));
            assert(q.pts() =~= at_anchor(q.shape, q.orientation, ax - 1, ay));
        },
    }
}

#[verifier::rlimit(80)]
#[verifier::spinoff_prover]
proof fn lemma_cw_step_rhode_island_z(p: Piece, q: Piece)
    requires
        p.shape == Shape::RhodeIslandZ,
        wf_layout(p),
        is_cw_candidate(p, q),
    ensures
        q.shape == p.shape,
        q.orientation == next_orientation(p.orientation),
        wf_layout(q),
        q.lo_x() == p.lo_x() + cw_anchor_step(p.shape, p.orientation).0,
        q.lo_y() == p.lo_y() + cw_anchor_step(p.shape, p.orientation).1,
{
    let ax = p.lo_x();
    let ay = p.lo_y();
    match p.orientation {
        Orientation::One => {
            assert(p.pts()[0] == p.points@[0].sp());
            assert(p.pts()[1] == p.points@[1].sp());
            assert(p.pts()[2] == p.points@[2].sp());
            assert(p.pts()[3] == p.points@[3].sp());
            assert(at_anchor(p.shape, p.orientation, ax, ay)[0] == (ax, ay));
            assert(at_anchor(p.shape, p.orientation, ax, ay)[1] == (ax + 1, ay));
            assert(at_anchor(p.shape, p.orientation, ax, ay)[2] == (ax + 1, ay + 1));
            assert(at_anchor(p.shape, p.orientation, ax, ay)[3] == (ax + 2, ay + 1));
            assert(p.pts()[0] == (ax, ay));
            assert(p.pts()[1] == (ax + 1, ay));
            assert(p.pts()[2] == (ax + 1, ay + 1));
            assert(p.pts()[3] == (ax + 2, ay + 1));
            assert(p.hi_x() == ax + 2);
            assert(p.hi_y() == ay + 1);
            assert(cw_offset(p.shape, p.orientation, ax, ay) is Some);
            assert(cw_offset(p.shape, p.orientation, ax, ay) == Some((ax + 1, ay)));
            let images = cw_images(p, ax + 1, ay);
            assert(images.len() == 4);
            assert(images[0] == (ax + 1, ay + 2));
            assert(images[1] == (ax + 1, ay + 1));
            assert(images[2] == (ax + 2, ay + 1));
            assert(images[3] == (ax + 2, ay));
            lemma_quad_members(images);
            assert forall|pt: (int, int)| q.pts().contains(pt) <==> (pt == (ax + 1, ay + 2) || pt == (ax + 1, ay + 1) || pt == (ax + 2, ay + 1) || pt == (ax + 2, ay)) by {}
            lemma_step_case(q, (ax + 1, ay + 2), (ax + 1, ay + 1), (ax + 2, ay + 1), (ax + 2, ay), (ax + 2, ay), (ax + 1, ay + 1), (ax + 2, ay + 1), (ax + 1, ay + 2));
            assert(q.pts() == seq![(ax + 2, ay), (ax + 1, ay + 1), (ax + 2, ay + 1), (ax + 1, ay + 2)]);
            assert(q.pts()[0] == q.points@[0].sp());
            assert(q.pts()[1] == q.points@[1].sp());
            assert(q.pts()[2] == q.points@[2].sp());
            assert(q.pts()[3] == q.points@[3].sp());
            assert(q.lo_x() == ax + 1);
            assert(q.lo_y() == ay);
            assert(at_anchor(q.shape, q.orientation, ax + 1, ay)[0] == (ax + 2, ay));
            assert(at_anchor(q.shape, q.orientation, ax + 1, ay)[1] == (ax + 1, ay + 1));
            assert(at_anchor(q.shape, q.orientation, ax + 1, ay)[2] == (ax + 2, ay + 1));
            assert(at_anchor(q.shape, q.orientation, ax + 1, ay)[3] == (ax + 1, ay + 2));
            assert(q.pts() =~= at_anchor(q.shape, q.orientation, ax + 1, ay));
        },
        Orientation::Two => {
            assert(p.pts()[0] == p.points@[0].sp());
            assert(p.pts()[1] == p.points@[1].sp());
            assert(p.pts()[2] == p.points@[2].sp());
            assert(p.pts()[3] == p.points@[3].sp());
            assert(at_anchor(p.shape, p.orientation, ax, ay)[0] == (ax + 1, ay));
            assert(at_anchor(p.shape, p.orientation, ax, ay)[1] == (ax, ay + 1));
            assert(at_anchor(p.shape, p.orientation, ax, ay)[2] == (ax + 1, ay + 1));
            assert(at_anchor(p.shape, p.orientation, ax, ay)[3] == (ax, ay + 2));
            assert(p.pts()[0] == (ax + 1, ay));
            assert(p.pts()[1] == (ax, ay + 1));
            assert(p.pts()[2] == (ax + 1, ay + 1));
            assert(p.pts()[3] == (ax, ay + 2));
            assert(p.hi_x() == ax + 1);
            assert(p.hi_y() == ay + 2);
            assert(cw_offset(p.shape, p.orientation, ax, ay) is Some);
            assert(cw_offset(p.shape, p.orientation, ax, ay) == Some((ax - 1, ay)));
            let images = cw_images(p, ax - 1, ay);
            assert(images.len() == 4);
            assert(images[0] == (ax - 1, ay));
            assert(images[1] == (ax, ay + 1));
            assert(images[2] == (ax, ay));
            assert(images[3] == (ax + 1, ay + 1));
            lemma_quad_members(images);
            assert forall|pt: (int, int)| q.pts().contains(pt) <==> (pt == (ax - 1, ay) || pt == (ax, ay + 1) || pt == (ax, ay) || pt == (ax + 1, ay + 1)) by {}
            lemma_step_case(q, (ax - 1, ay), (ax, ay + 1), (ax, ay), (ax + 1, ay + 1), (ax - 1, ay), (ax, ay), (ax, ay + 1), (ax + 1, ay + 1));
            assert(q.pts() == seq![(ax - 1, ay), (ax, ay), (ax, ay + 1), (ax + 1, ay + 1)]);
            assert(q.pts()[0] == q.points@[0].sp());
            assert(q.pts()[1] == q.points@[1].sp());
            assert(q.pts()[2] == q.points@[2].sp());
            assert(q.pts()[3] == q.points@[3].sp());
            assert(q.lo_x() == ax - 1);
            assert(q.lo_y() == ay);
            assert(at_anchor(q.shape, q.orientation, ax - 1, ay)[0] == (ax - 1, ay));
            assert(at_anchor(q.shape, q.orientation, ax - 1, ay)[1] == (ax, ay));
            assert(at_anchor(q.shape, q.orientation, ax - 1, ay)[2] == (ax, ay + 1));
            assert(at_anchor(q.shape, q.orientation, ax - 1, ay)[3] == (ax + 1, ay + 1));
            assert(q.pts() =~= at_anchor(q.shape, q.orientation, ax - 1, ay));
        },
        Orientation::Three => {
            assert(p.pts()[0] == p.points@[0].sp());
            assert(p.pts()[1] == p.points@[1].sp());
            assert(p.pts()[2] == p.points@[2].sp());
            assert(p.pts()[3] == p.points@[3].sp());
            assert(at_anchor(p.shape, p.orientation, ax, ay)[0] == (ax, ay));
            assert(at_anchor(p.shape, p.orientation, ax, ay)[1] == (ax + 1, ay));
            assert(at_anchor(p.shape, p.orientation, ax, ay)[2] == (ax + 1, ay + 1));
            assert(at_anchor(p.shape, p.orientation, ax, ay)[3] == (ax + 2, ay + 1));
            assert(p.pts()[0] == (ax, ay));
            assert(p.pts()[1] == (ax + 1, ay));
            assert(p.pts()[2] == (ax + 1, ay + 1));
            assert(p.pts()[3] == (ax + 2, ay + 1));
            assert(p.hi_x() == ax + 2);
            assert(p.hi_y() == ay + 1);
            assert(cw_offset(p.shape, p.orientation, ax, ay) is Some);
            assert(cw_offset(p.shape, p.orientation, ax, ay) == Some((ax + 1, ay)));
            let images = cw_images(p, ax + 1, ay);
            assert(images.len() == 4);
            assert(images[0] == (ax + 1, ay + 2));
            assert(images[1] == (ax + 1, ay + 1));
            assert(images[2] == (ax + 2, ay + 1));
            assert(images[3] == (ax + 2, ay));
            lemma_quad_members(images);
            assert forall|pt: (int, int)| q.pts().contains(pt) <==> (pt == (ax + 1, ay + 2) || pt == (ax + 1, ay + 1) || pt == (ax + 2, ay + 1) || pt == (ax + 2, ay)) by {}
            lemma_step_case(q, (ax + 1, ay + 2), (ax + 1, ay + 1), (ax + 2, ay + 1), (ax + 2, ay), (ax + 2, ay), (ax + 1, ay + 1), (ax + 2, ay + 1), (ax + 1, ay + 2));
            assert(q.pts() == seq![(ax + 2, ay), (ax + 1, ay + 1), (ax + 2, ay + 1), (ax + 1, ay + 2)]);
            assert(q.pts()[0] == q.points@[0].sp());
            assert(q.pts()[1] == q.points@[1].sp());
            assert(q.pts()[2] == q.points@[2].sp());
            assert(q.pts()[3] == q.points@[3].sp());
            assert(q.lo_x() == ax + 1);
            assert(q.lo_y() == ay);
            assert(at_anchor(q.shape, q.orientation, ax + 1, ay)[0] == (ax + 2, ay));
            assert(at_anchor(q.shape, q.orientation, ax + 1, ay)[1] == (ax + 1, ay + 1));
            assert(at_anchor(q.shape, q.orientation, ax + 1, ay)[2] == (ax + 2, ay + 1));
            assert(at_anchor(q.shape, q.orientation, ax + 1, ay)[3] == (ax + 1, ay + 2));
            assert(q.pts() =~= at_anchor(q.shape, q.orientation, ax + 1, ay));
        },
        Orientation::Four => {
            assert(p.pts()[0] == p.points@[0].sp());
            assert(p.pts()[1] == p.points@[1].sp());
            assert(p.pts()[2] == p.points@[2].sp());
            assert(p.pts()[3] == p.points@[3].sp());
            assert(at_anchor(p.shape, p.orientation, ax, ay)[0] == (ax + 1, ay));
            assert(at_anchor(p.shape, p.orientation, ax, ay)[1] == (ax, ay + 1));
            assert(at_anchor(p.shape, p.orientation, ax, ay)[2] == (ax + 1, ay + 1));
            assert(at_anchor(p.shape, p.orientation, ax, ay)[3] == (ax, ay + 2));
            assert(p.pts()[0] == (ax + 1, ay));
            assert(p.pts()[1] == (ax, ay + 1));
            assert(p.pts()[2] == (ax + 1, ay + 1));
            assert(p.pts()[3] == (ax, ay + 2));
            assert(p.hi_x() == ax + 1);
            assert(p.hi_y() == ay + 2);
            assert(cw_offset(p.shape, p.orientation, ax, ay) is Some);
            assert(cw_offset(p.shape, p.orientation, ax, ay) == Some((ax - 1, ay)));
            let images = cw_images(p, ax - 1, ay);
            assert(images.len() == 4);
            assert(images[0] == (ax - 1, ay));
            assert(images[1] == (ax, ay + 1));
            assert(images[2] == (ax, ay));
            assert(images[3] == (ax + 1, ay + 1));
            lemma_quad_members(images);
            assert forall|pt: (int, int)| q.pts().contains(pt) <==> (pt == (ax - 1, ay) || pt == (ax, ay + 1) || pt == (ax, ay) || pt == (ax + 1, ay + 1)) by {}
            lemma_step_case(q, (ax - 1, ay), (ax, ay + 1), (ax, ay), (ax + 1, ay + 1), (ax - 1, ay), (ax, ay), (ax, ay + 1), (ax + 1, ay + 1));
            assert(q.pts() == seq![(ax - 1, ay), (ax, ay), (ax, ay + 1), (ax + 1, ay + 1)]);
            assert(q.pts()[0] == q.points@[0].sp());
            assert(q.pts()[1] == q.points@[1].sp());
            assert(q.pts()[2] == q.points@[2].sp());
            assert(q.pts()[3] == q.points@[3].sp());
            assert(q.lo_x() == ax - 1);
            assert(q.lo_y() == ay);
            assert(at_anchor(q.shape, q.orientation, ax - 1, ay)[0] == (ax - 1, ay));
            assert(at_anchor(q.shape, q.orientation, ax - 1, ay)[1] == (ax, ay));
            assert(at_anchor(q.shape, q.orientation, ax - 1, ay)[2] == (ax, ay + 1));
            assert(at_anchor(q.shape, q.orientation, ax - 1, ay)[3] == (ax + 1, ay + 1));
            assert(q.pts() =~= at_anchor(q.shape, q.orientation, ax - 1, ay));
        },
    }
}

#[verifier::rlimit(80)]
#[verifier::spinoff_prover]
proof fn lemma_cw_step_hero(p: Piece, q: Piece)
    requires
        p.shape == Shape::Hero,
        wf_layout(p),
        is_cw_candidate(p, q),
    ensures
        q.shape == p.shape,
        q.orientation == next_orientation(p.orientation),
        wf_layout(q),
        q.lo_x() == p.lo_x() + cw_anchor_step(p.shape, p.orientation).0,
        q.lo_y() == p.lo_y() + cw_anchor_step(p.shape, p.orientation).1,
{
    let ax = p.lo_x();
    let ay = p.lo_y();
    match p.orientation {
        Orientation::One => {
            assert(p.pts()[0] == p.points@[0].sp());
            assert(p.pts()[1] == p.points@[1].sp());
            assert(p.pts()[2] == p.points@[2].sp());
            assert(p.pts()[3] == p.points@[3].sp());
            assert(at_anchor(p.shape, p.orientation, ax, ay)[0] == (ax, ay));
            assert(at_anchor(p.shape, p.orientation, ax, ay)[1] == (ax + 1, ay));
            assert(at_anchor(p.shape, p.orientation, ax, ay)[2] == (ax + 2, ay));
            assert(at_anchor(p.shape, p.orientation, ax, ay)[3] == (ax + 3, ay));
            assert(p.pts()[0] == (ax, ay));
            assert(p.pts()[1] == (ax + 1, ay));
            assert(p.pts()[2] == (ax + 2, ay));
            assert(p.pts()[3] == (ax + 3, ay));
            assert(p.hi_x() == ax + 3);
            assert(p.hi_y() == ay);
            assert(cw_offset(p.shape, p.orientation, ax, ay) is Some);
            assert(cw_offset(p.shape, p.orientation, ax, ay) == Some((ax + 2, ay - 1)));
            let images = cw_images(p, ax + 2, ay - 1);
            assert(images.len() == 4);
            assert(images[0] == (ax + 2, ay + 2));
            assert(images[1] == (ax + 2, ay + 1));
            assert(images[2] == (ax + 2, ay));
            assert(images[3] == (ax + 2, ay - 1));
            lemma_quad_members(images);
            assert forall|pt: (int, int)| q.pts().contains(pt) <==> (pt == (ax + 2, ay + 2) || pt == (ax + 2, ay + 1) || pt == (ax + 2, ay) || pt == (ax + 2, ay - 1)) by {}
            lemma_step_case(q, (ax + 2, ay + 2), (ax + 2, ay + 1), (ax + 2, ay), (ax + 2, ay - 1), (ax + 2, ay - 1), (ax + 2, ay), (ax + 2, ay + 1), (ax + 2, ay + 2));
            assert(q.pts() == seq![(ax + 2, ay - 1), (ax + 2, ay), (ax + 2, ay + 1), (ax + 2, ay + 2)]);
            assert(q.pts()[0] == q.points@[0].sp());
            assert(q.pts()[1] == q.points@[1].sp());
            assert(q.pts()[2] == q.points@[2].sp());
            assert(q.pts()[3] == q.points@[3].sp());
            assert(q.lo_x() == ax + 2);
            assert(q.lo_y() == ay - 1);
            assert(at_anchor(q.shape, q.orientation, ax + 2, ay - 1)[0] == (ax + 2, ay - 1));
            assert(at_anchor(q.shape, q.orientation, ax + 2, ay - 1)[1] == (ax + 2, ay));
            assert(at_anchor(q.shape, q.orientation, ax + 2, ay - 1)[2] == (ax + 2, ay + 1));
            assert(at_anchor(q.shape, q.orientation, ax + 2, ay - 1)[3] == (ax + 2, ay + 2));
            assert(q.pts() =~= at_anchor(q.shape, q.orientation, ax + 2, ay - 1));
        },
        Orientation::Two => {
            assert(p.pts()[0] == p.points@[0].sp());
            assert(p.pts()[1] == p.points@[1].sp());
            assert(p.pts()[2] == p.points@[2].sp());
            assert(p.pts()[3] == p.points@[3].sp());
            assert(at_anchor(p.shape, p.orientation, ax, ay)[0] == (ax, ay));
            assert(at_anchor(p.shape, p.orientation, ax, ay)[1] == (ax, ay + 1));
            assert(at_anchor(p.shape, p.orientation, ax, ay)[2] == (ax, ay + 2));
            assert(at_anchor(p.shape, p.orientation, ax, ay)[3] == (ax, ay + 3));
            assert(p.pts()[0] == (ax, ay));
            assert(p.pts()[1] == (ax, ay + 1));
            assert(p.pts()[2] == (ax, ay + 2));
            assert(p.pts()[3] == (ax, ay + 3));
            assert(p.hi_x() == ax);
            assert(p.hi_y() == ay + 3);
            assert(cw_offset(p.shape, p.orientation, ax, ay) is Some);
            assert(cw_offset(p.shape, p.orientation, ax, ay) == Some((ax - 2, ay + 1)));
            let images = cw_images(p, ax - 2, ay + 1);
            assert(images.len() == 4);
            assert(images[0] == (ax - 2, ay + 1));
            assert(images[1] == (ax - 1, ay + 1));
            assert(images[2] == (ax, ay + 1));
            assert(images[3] == (ax + 1, ay + 1));
            lemma_quad_members(images);
            assert forall|pt: (int, int)| q.pts().contains(pt) <==> (pt == (ax - 2, ay + 1) || pt == (ax - 1, ay + 1) || pt == (ax, ay + 1) || pt == (ax + 1, ay + 1)) by {}
            lemma_step_case(q, (ax - 2, ay + 1), (ax - 1, ay + 1), (ax, ay + 1), (ax + 1, ay + 1), (ax - 2, ay + 1), (ax - 1, ay + 1), (ax, ay + 1), (ax + 1, ay + 1));
            assert(q.pts() == seq![(ax - 2, ay + 1), (ax - 1, ay + 1), (ax, ay + 1), (ax + 1, ay + 1)]);
            assert(q.pts()[0] == q.points@[0].sp());
            assert(q.pts()[1] == q.points@[1].sp());
            assert(q.pts()[2] == q.points@[2].sp());
            assert(q.pts()[3] == q.points@[3].sp());
            assert(q.lo_x() == ax - 2);
            assert(q.lo_y() == ay + 1);
            assert(at_anchor(q.shape, q.orientation, ax - 2, ay + 1)[0] == (ax - 2, ay + 1));
            assert(at_anchor(q.shape, q.orientation, ax - 2, ay + 1)[1] == (ax - 1, ay + 1));
            assert(at_anchor(q.shape, q.orientation, ax - 2, ay + 1)[2] == (ax, ay + 1));
            assert(at_anchor(q.shape, q.orientation, ax - 2, ay + 1)[3] == (ax + 1, ay + 1));
            assert(q.pts() =~= at_anchor(q.shape, q.orientation, ax - 2, ay + 1));
        },
        Orientation::Three => {
            assert(p.pts()[0] == p.points@[0].sp());
            assert(p.pts()[1] == p.points@[1].sp());
            assert(p.pts()[2] == p.points@[2].sp());
            assert(p.pts()[3] == p.points@[3].sp());
            assert(at_anchor(p.shape, p.orientation, ax, ay)[0] == (ax, ay));
            assert(at_anchor(p.shape, p.orientation, ax, ay)[1] == (ax + 1, ay));
            assert(at_anchor(p.shape, p.orientation, ax, ay)[2] == (ax + 2, ay));
            assert(at_anchor(p.shape, p.orientation, ax, ay)[3] == (ax + 3, ay));
            assert(p.pts()[0] == (ax, ay));
            assert(p.pts()[1] == (ax + 1, ay));
            assert(p.pts()[2] == (ax + 2, ay));
            assert(p.pts()[3] == (ax + 3, ay));
            assert(p.hi_x() == ax + 3);
            assert(p.hi_y() == ay);
            assert(cw_offset(p.shape, p.orientation, ax, ay) is Some);
            assert(cw_offset(p.shape, p.orientation, ax, ay) == Some((ax + 2, ay - 1)));
            let images = cw_images(p, ax + 2, ay - 1);
            assert(images.len() == 4);
            assert(images[0] == (ax + 2, ay + 2));
            assert(images[1] == (ax + 2, ay + 1));
            assert(images[2] == (ax + 2, ay));
            assert(images[3] == (ax + 2, ay - 1));
            lemma_quad_members(images);
            assert forall|pt: (int, int)| q.pts().contains(pt) <==> (pt == (ax + 2, ay + 2) || pt == (ax + 2, ay + 1) || pt == (ax + 2, ay) || pt == (ax + 2, ay - 1)) by {}
            lemma_step_case(q, (ax + 2, ay + 2), (ax + 2, ay + 1), (ax + 2, ay), (ax + 2, ay - 1), (ax + 2, ay - 1), (ax + 2, ay), (ax + 2, ay + 1), (ax + 2, ay + 2));
            assert(q.pts() == seq![(ax + 2, ay - 1), (ax + 2, ay), (ax + 2, ay + 1), (ax + 2, ay + 2)]);
            assert(q.pts()[0] == q.points@[0].sp());
            assert(q.pts()[1] == q.points@[1].sp());
            assert(q.pts()[2] == q.points@[2].sp());
            assert(q.pts()[3] == q.points@[3].sp());
            assert(q.lo_x() == ax + 2);
            assert(q.lo_y() == ay - 1);
            assert(at_anchor(q.shape, q.orientation, ax + 2, ay - 1)[0] == (ax + 2, ay - 1));
            assert(at_anchor(q.shape, q.orientation, ax + 2, ay - 1)[1] == (ax + 2, ay));
            assert(at_anchor(q.shape, q.orientation, ax + 2, ay - 1)[2] == (ax + 2, ay + 1));
            assert(at_anchor(q.shape, q.orientation, ax + 2, ay - 1)[3] == (ax + 2, ay + 2));
            assert(q.pts() =~= at_anchor(q.shape, q.orientation, ax + 2, ay - 1));
        },
        Orientation::Four => {
            assert(p.pts()[0] == p.points@[0].sp());
            assert(p.pts()[1] == p.points@[1].sp());
            assert(p.pts()[2] == p.points@[2].sp());
            assert(p.pts()[3] == p.points@[3].sp());
            assert(at_anchor(p.shape, p.orientation, ax, ay)[0] == (ax, ay));
            assert(at_anchor(p.shape, p.orientation, ax, ay)[1] == (ax, ay + 1));
            assert(at_anchor(p.shape, p.orientation, ax, ay)[2] == (ax, ay + 2));
            assert(at_anchor(p.shape, p.orientation, ax, ay)[3] == (ax, ay + 3));
            assert(p.pts()[0] == (ax, ay));
            assert(p.pts()[1] == (ax, ay + 1));
            assert(p.pts()[2] == (ax, ay + 2));
            assert(p.pts()[3] == (ax, ay + 3));
            assert(p.hi_x() == ax);
            assert(p.hi_y() == ay + 3);
            assert(cw_offset(p.shape, p.orientation, ax, ay) is Some);
            assert(cw_offset(p.shape, p.orientation, ax, ay) == Some((ax - 2, ay + 1)));
            let images = cw_images(p, ax - 2, ay + 1);
            assert(images.len() == 4);
            assert(images[0] == (ax - 2, ay + 1));
            assert(images[1] == (ax - 1, ay + 1));
            assert(images[2] == (ax, ay + 1));
            assert(images[3] == (ax + 1, ay + 1));
            lemma_quad_members(images);
            assert forall|pt: (int, int)| q.pts().contains(pt) <==> (pt == (ax - 2, ay + 1) || pt == (ax - 1, ay + 1) || pt == (ax, ay + 1) || pt == (ax + 1, ay + 1)) by {}
            lemma_step_case(q, (ax - 2, ay + 1), (ax - 1, ay + 1), (ax, ay + 1), (ax + 1, ay + 1), (ax - 2, ay + 1), (ax - 1, ay + 1), (ax, ay + 1), (ax + 1, ay + 1));
            assert(q.pts() == seq![(ax - 2, ay + 1), (ax - 1, ay + 1), (ax, ay + 1), (ax + 1, ay + 1)]);
            assert(q.pts()[0] == q.points@[0].sp());
            assert(q.pts()[1] == q.points@[1].sp());
            assert(q.pts()[2] == q.points@[2].sp());
            assert(q.pts()[3] == q.points@[3].sp());
            assert(q.lo_x() == ax - 2);
            assert(q.lo_y() == ay + 1);
            assert(at_anchor(q.shape, q.orientation, ax - 2, ay + 1)[0] == (ax - 2, ay + 1));
            assert(at_anchor(q.shape, q.orientation, ax - 2, ay + 1)[1] == (ax - 1, ay + 1));
            assert(at_anchor(q.shape, q.orientation, ax - 2, ay + 1)[2] == (ax, ay + 1));
            assert(at_anchor(q.shape, q.orientation, ax - 2, ay + 1)[3] == (ax + 1, ay + 1));
            assert(q.pts() =~= at_anchor(q.shape, q.orientation, ax - 2, ay + 1));
        },
    }
}

#[verifier::rlimit(80)]
#[verifier::spinoff_prover]
proof fn lemma_cw_step_teewee(p: Piece, q: Piece)
    requires
        p.shape == Shape::Teewee,
        wf_layout(p),
        is_cw_candidate(p, q),
    ensures
        q.shape == p.shape,
        q.orientation == next_orientation(p.orientation),
        wf_layout(q),
        q.lo_x() == p.lo_x() + cw_anchor_step(p.shape, p.orientation).0,
        q.lo_y() == p.lo_y() + cw_anchor_step(p.shape, p.orientation).1,
{
    let ax = p.lo_x();
    let ay = p.lo_y();
    match p.orientation {
        Orientation::One => {
            assert(p.pts()[0] == p.points@[0].sp());
            assert(p.pts()[1] == p.points@[1].sp());
            assert(p.pts()[2] == p.points@[2].sp());
            assert(p.pts()[3] == p.points@[3].sp());
            assert(at_anchor(p.shape, p.orientation, ax, ay)[0] == (ax + 1, ay));
            assert(at_anchor(p.shape, p.orientation, ax, ay)[1] == (ax, ay + 1));
            assert(at_anchor(p.shape, p.orientation, ax, ay)[2] == (ax + 1, ay + 1));
            assert(at_anchor(p.shape, p.orientation, ax, ay)[3] == (ax + 2, ay + 1));
            assert(p.pts()[0] == (ax + 1, ay));
            assert(p.pts()[1] == (ax, ay + 1));
            assert(p.pts()[2] == (ax + 1, ay + 1));
            assert(p.pts()[3] == (ax + 2, ay + 1));
            assert(p.hi_x() == ax + 2);
            assert(p.hi_y() == ay + 1);
            assert(cw_offset(p.shape, p.orientation, ax, ay) is Some);
            assert(cw_offset(p.shape, p.orientation, ax, ay) == Some((ax, ay)));
            let images = cw_images(p, ax, ay);
            assert(images.len() == 4);
            assert(images[0] == (ax, ay + 1));
            assert(images[1] == (ax + 1, ay + 2));
            assert(images[2] == (ax + 1, ay + 1));
            assert(images[3] == (ax + 1, ay));
            lemma_quad_members(images);
            assert forall|pt: (int, int)| q.pts().contains(pt) <==> (pt == (ax, ay + 1) || pt == (ax + 1, ay + 2) || pt == (ax + 1, ay + 1) || pt == (ax + 1, ay)) by {}
            lemma_step_case(q, (ax, ay + 1), (ax + 1, ay + 2), (ax + 1, ay + 1), (ax + 1, ay), (ax + 1, ay), (ax, ay + 1), (ax + 1, ay + 1), (ax + 1, ay + 2));
            assert(q.pts() == seq![(ax + 1, ay), (ax, ay + 1), (ax + 1, ay + 1), (ax + 1, ay + 2)]);
            assert(q.pts()[0] == q.points@[0].sp());
            assert(q.pts()[1] == q.points@[1].sp());
            assert(q.pts()[2] == q.points@[2].sp());
            assert(q.pts()[3] == q.points@[3].sp());
            assert(q.lo_x() == ax);
            assert(q.lo_y() == ay);
            assert(at_anchor(q.shape, q.orientation, ax, ay)[0] == (ax + 1, ay));
            assert(at_anchor(q.shape, q.orientation, ax, ay)[1] == (ax, ay + 1));
            assert(at_anchor(q.shape, q.orientation, ax, ay)[2] == (ax + 1, ay + 1));
            assert(at_anchor(q.shape, q.orientation, ax, ay)[3] == (ax + 1, ay + 2));
            assert(q.pts() =~= at_anchor(q.shape, q.orientation, ax, ay));
        },
        Orientation::Two => {
            assert(p.pts()[0] == p.points@[0].sp());
            assert(p.pts()[1] == p.points@[1].sp());
            assert(p.pts()[2] == p.points@[2].sp());
            assert(p.pts()[3] == p.points@[3].sp());
            assert(at_anchor(p.shape, p.orientation, ax, ay)[0] == (ax + 1, ay));
            assert(at_anchor(p.shape, p.orientation, ax, ay)[1] == (ax, ay + 1));
            assert(at_anchor(p.shape, p.orientation, ax, ay)[2] == (ax + 1, ay + 1));
            assert(at_anchor(p.shape, p.orientation, ax, ay)[3] == (ax + 1, ay + 2));
            assert(p.pts()[0] == (ax + 1, ay));
            assert(p.pts()[1] == (ax, ay + 1));
            assert(p.pts()[2] == (ax + 1, ay + 1));
            assert(p.pts()[3] == (ax + 1, ay + 2));
            assert(p.hi_x() == ax + 1);
            assert(p.hi_y() == ay + 2);
            assert(cw_offset(p.shape, p.orientation, ax, ay) is Some);
            assert(cw_offset(p.shape, p.orientation, ax, ay) == Some((ax, ay + 1)));
            let images = cw_images(p, ax, ay + 1);
            assert(images.len() == 4);
            assert(images[0] == (ax, ay + 1));
            assert(images[1] == (ax + 1, ay + 2));
            assert(images[2] == (ax + 1, ay + 1));
            assert(images[3] == (ax + 2, ay + 1));
            lemma_quad_members(images);
            assert forall|pt: (int, int)| q.pts().contains(pt) <==> (pt == (ax, ay + 1) || pt == (ax + 1, ay + 2) || pt == (ax + 1, ay + 1) || pt == (ax + 2, ay + 1)) by {}
            lemma_step_case(q, (ax, ay + 1), (ax + 1, ay + 2), (ax + 1, ay + 1), (ax + 2, ay + 1), (ax, ay + 1), (ax + 1, ay + 1), (ax + 2, ay + 1), (ax + 1, ay + 2));
            assert(q.pts() == seq![(ax, ay + 1), (ax + 1, ay + 1), (ax + 2, ay + 1), (ax + 1, ay + 2)]);
            assert(q.pts()[0] == q.points@[0].sp());
            assert(q.pts()[1] == q.points@[1].sp());
            assert(q.pts()[2] == q.points@[2].sp());
            assert(q.pts()[3] == q.points@[3].sp());
            assert(q.lo_x() == ax);
            assert(q.lo_y() == ay + 1);
            assert(at_anchor(q.shape, q.orientation, ax, ay + 1)[0] == (ax, ay + 1));
            assert(at_anchor(q.shape, q.orientation, ax, ay + 1)[1] == (ax + 1, ay + 1));
            assert(at_anchor(q.shape, q.orientation, ax, ay + 1)[2] == (ax + 2, ay + 1));
            assert(at_anchor(q.shape, q.orientation, ax, ay + 1)[3] == (ax + 1, ay + 2));
            assert(q.pts() =~= at_anchor(q.shape, q.orientation, ax, ay + 1));
        },
        Orientation::Three => {
            assert(p.pts()[0] == p.points@[0].sp());
            assert(p.pts()[1] == p.points@[1].sp());
            assert(p.pts()[2] == p.points@[2].sp());
            assert(p.pts()[3] == p.points@[3].sp());
            assert(at_anchor(p.shape, p.orientation, ax, ay)[0] == (ax, ay));
            assert(at_anchor(p.shape, p.orientation, ax, ay)[1] == (ax + 1, ay));
            assert(at_anchor(p.shape, p.orientation, ax, ay)[2] == (ax + 2, ay));
            assert(at_anchor(p.shape, p.orientation, ax, ay)[3] == (ax + 1, ay + 1));
            assert(p.pts()[0] == (ax, ay));
            assert(p.pts()[1] == (ax + 1, ay));
            assert(p.pts()[2] == (ax + 2, ay));
            assert(p.pts()[3] == (ax + 1, ay + 1));
            assert(p.hi_x() == ax + 2);
            assert(p.hi_y() == ay + 1);
            assert(cw_offset(p.shape, p.orientation, ax, ay) is Some);
            assert(cw_offset(p.shape, p.orientation, ax, ay) == Some((ax + 1, ay - 1)));
            let images = cw_images(p, ax + 1, ay - 1);
            assert(images.len() == 4);
            assert(images[0] == (ax + 1, ay + 1));
            assert(images[1] == (ax + 1, ay));
            assert(images[2] == (ax + 1, ay - 1));
            assert(images[3] == (ax + 2, ay));
            lemma_quad_members(images);
            assert forall|pt: (int, int)| q.pts().contains(pt) <==> (pt == (ax + 1, ay + 1) || pt == (ax + 1, ay) || pt == (ax + 1, ay - 1) || pt == (ax + 2, ay)) by {}
            lemma_step_case(q, (ax + 1, ay + 1), (ax + 1, ay), (ax + 1, ay - 1), (ax + 2, ay), (ax + 1, ay - 1), (ax + 1, ay), (ax + 2, ay), (ax + 1, ay + 1));
            assert(q.pts() == seq![(ax + 1, ay - 1), (ax + 1, ay), (ax + 2, ay), (ax + 1, ay + 1)]);
            assert(q.pts()[0] == q.points@[0].sp());
            assert(q.pts()[1] == q.points@[1].sp());
            assert(q.pts()[2] == q.points@[2].sp());
            assert(q.pts()[3] == q.points@[3].sp());
            assert(q.lo_x() == ax + 1);
            assert(q.lo_y() == ay - 1);
            assert(at_anchor(q.shape, q.orientation, ax + 1, ay - 1)[0] == (ax + 1, ay - 1));
            assert(at_anchor(q.shape, q.orientation, ax + 1, ay - 1)[1] == (ax + 1, ay));
            assert(at_anchor(q.shape, q.orientation, ax + 1, ay - 1)[2] == (ax + 2, ay));
            assert(at_anchor(q.shape, q.orientation, ax + 1, ay - 1)[3] == (ax + 1, ay + 1));
            assert(q.pts() =~= at_anchor(q.shape, q.orientation, ax + 1, ay - 1));
        },
        Orientation::Four => {
            assert(p.pts()[0] == p.points@[0].sp());
            assert(p.pts()[1] == p.points@[1].sp());
            assert(p.pts()[2] == p.points@[2].sp());
            assert(p.pts()[3] == p.points@[3].sp());
            assert(at_anchor(p.shape, p.orientation, ax, ay)[0] == (ax, ay));
            assert(at_anchor(p.shape, p.orientation, ax, ay)[1] == (ax, ay + 1));
            assert(at_anchor(p.shape, p.orientation, ax, ay)[2] == (ax + 1, ay + 1));
            assert(at_anchor(p.shape, p.orientation, ax, ay)[3] == (ax, ay + 2));
            assert(p.pts()[0] == (ax, ay));
            assert(p.pts()[1] == (ax, ay + 1));
            assert(p.pts()[2] == (ax + 1, ay + 1));
            assert(p.pts()[3] == (ax, ay + 2));
            assert(p.hi_x() == ax + 1);
            assert(p.hi_y() == ay + 2);
            assert(cw_offset(p.shape, p.orientation, ax, ay) is Some);
            assert(cw_offset(p.shape, p.orientation, ax, ay) == Some((ax - 1, ay)));
            let images = cw_images(p, ax - 1, ay);
            assert(images.len() == 4);
            assert(images[0] == (ax - 1, ay + 1));
            assert(images[1] == (ax, ay + 1));
            assert(images[2] == (ax, ay));
            assert(images[3] == (ax + 1, ay + 1));
            lemma_quad_members(images);
            assert forall|pt: (int, int)| q.pts().contains(pt) <==> (pt == (ax - 1, ay + 1) || pt == (ax, ay + 1) || pt == (ax, ay) || pt == (ax + 1, ay + 1)) by {}
            lemma_step_case(q, (ax - 1, ay + 1), (ax, ay + 1), (ax, ay), (ax + 1, ay + 1), (ax, ay), (ax - 1, ay + 1), (ax, ay + 1), (ax + 1, ay + 1));
            assert(q.pts() == seq![(ax, ay), (ax - 1, ay + 1), (ax, ay + 1), (ax + 1, ay + 1)]);
            assert(q.pts()[0] == q.points@[0].sp());
            assert(q.pts()[1] == q.points@[1].sp());
            assert(q.pts()[2] == q.points@[2].sp());
            assert(q.pts()[3] == q.points@[3].sp());
            assert(q.lo_x() == ax - 1);
            assert(q.lo_y() == ay);
            assert(at_anchor(q.shape, q.orientation, ax - 1, ay)[0] == (ax, ay));
            assert(at_anchor(q.shape, q.orientation, ax - 1, ay)[1] == (ax - 1, ay + 1));
            assert(at_anchor(q.shape, q.orientation, ax - 1, ay)[2] == (ax, ay + 1));
            assert(at_anchor(q.shape, q.orientation, ax - 1, ay)[3] == (ax + 1, ay + 1));
            assert(q.pts() =~= at_anchor(q.shape, q.orientation, ax - 1, ay));
        },
    }
}

#[verifier::rlimit(80)]
#[verifier::spinoff_prover]
proof fn lemma_cw_step_smashboy(p: Piece, q: Piece)
    requires
        p.shape == Shape::Smashboy,
        wf_layout(p),
        is_cw_candidate(p, q),
    ensures
        q.shape == p.shape,
        q.orientation == next_orientation(p.orientation),
        wf_layout(q),
        q.lo_x() == p.lo_x() + cw_anchor_step(p.shape, p.orientation).0,
        q.lo_y() == p.lo_y() + cw_anchor_step(p.shape, p.orientation).1,
{
    let ax = p.lo_x();
    let ay = p.lo_y();
    match p.orientation {
        Orientation::One => {
            assert(p.pts()[0] == p.points@[0].sp());
            assert(p.pts()[1] == p.points@[1].sp());
            assert(p.pts()[2] == p.points@[2].sp());
            assert(p.pts()[3] == p.points@[3].sp());
            assert(at_anchor(p.shape, p.orientation, ax, ay)[0] == (ax, ay));
            assert(at_anchor(p.shape, p.orientation, ax, ay)[1] == (ax + 1, ay));
            assert(at_anchor(p.shape, p.orientation, ax, ay)[2] == (ax, ay + 1));
            assert(at_anchor(p.shape, p.orientation, ax, ay)[3] == (ax + 1, ay + 1));
            assert(p.pts()[0] == (ax, ay));
            assert(p.pts()[1] == (ax + 1, ay));
            assert(p.pts()[2] == (ax, ay + 1));
            assert(p.pts()[3] == (ax + 1, ay + 1));
            assert(p.hi_x() == ax + 1);
            assert(p.hi_y() == ay + 1);
            assert(cw_offset(p.shape, p.orientation, ax, ay) is Some);
            assert(cw_offset(p.shape, p.orientation, ax, ay) == Some((ax, ay)));
            let images = cw_images(p, ax, ay);
            assert(images.len() == 4);
            assert(images[0] == (ax, ay + 1));
            assert(images[1] == (ax, ay));
            assert(images[2] == (ax + 1, ay + 1));
            assert(images[3] == (ax + 1, ay));
            lemma_quad_members(images);
            assert forall|pt: (int, int)| q.pts().contains(pt) <==> (pt == (ax, ay + 1) || pt == (ax, ay) || pt == (ax + 1, ay + 1) || pt == (ax + 1, ay)) by {}
            lemma_step_case(q, (ax, ay + 1), (ax, ay), (ax + 1, ay + 1), (ax + 1, ay), (ax, ay), (ax + 1, ay), (ax, ay + 1), (ax + 1, ay + 1));
            assert(q.pts() == seq![(ax, ay), (ax + 1, ay), (ax, ay + 1), (ax + 1, ay + 1)]);
            assert(q.pts()[0] == q.points@[0].sp());
            assert(q.pts()[1] == q.points@[1].sp());
            assert(q.pts()[2] == q.points@[2].sp());
            assert(q.pts()[3] == q.points@[3].sp());
            assert(q.lo_x() == ax);
            assert(q.lo_y() == ay);
            assert(at_anchor(q.shape, q.orientation, ax, ay)[0] == (ax, ay));
            assert(at_anchor(q.shape, q.orientation, ax, ay)[1] == (ax + 1, ay));
            assert(at_anchor(q.shape, q.orientation, ax, ay)[2] == (ax, ay + 1));
            assert(at_anchor(q.shape, q.orientation, ax, ay)[3] == (ax + 1, ay + 1));
            assert(q.pts() =~= at_anchor(q.shape, q.orientation, ax, ay));
        },
        Orientation::Two => {
            assert(p.pts()[0] == p.points@[0].sp());
            assert(p.pts()[1] == p.points@[1].sp());
            assert(p.pts()[2] == p.points@[2].sp());
            assert(p.pts()[3] == p.points@[3].sp());
            assert(at_anchor(p.shape, p.orientation, ax, ay)[0] == (ax, ay));
            assert(at_anchor(p.shape, p.orientation, ax, ay)[1] == (ax + 1, ay));
            assert(at_anchor(p.shape, p.orientation, ax, ay)[2] == (ax, ay + 1));
            assert(at_anchor(p.shape, p.orientation, ax, ay)[3] == (ax + 1, ay + 1));
            assert(p.pts()[0] == (ax, ay));
            assert(p.pts()[1] == (ax + 1, ay));
            assert(p.pts()[2] == (ax, ay + 1));
            assert(p.pts()[3] == (ax + 1, ay + 1));
            assert(p.hi_x() == ax + 1);
            assert(p.hi_y() == ay + 1);
            assert(cw_offset(p.shape, p.orientation, ax, ay) is Some);
            assert(cw_offset(p.shape, p.orientation, ax, ay) == Some((ax, ay)));
            let images = cw_images(p, ax, ay);
            assert(images.len() == 4);
            assert(images[0] == (ax, ay + 1));
            assert(images[1] == (ax, ay));
            assert(images[2] == (ax + 1, ay + 1));
            assert(images[3] == (ax + 1, ay));
            lemma_quad_members(images);
            assert forall|pt: (int, int)| q.pts().contains(pt) <==> (pt == (ax, ay + 1) || pt == (ax, ay) || pt == (ax + 1, ay + 1) || pt == (ax + 1, ay)) by {}
            lemma_step_case(q, (ax, ay + 1), (ax, ay), (ax + 1, ay + 1), (ax + 1, ay), (ax, ay), (ax + 1, ay), (ax, ay + 1), (ax + 1, ay + 1));
            assert(q.pts() == seq![(ax, ay), (ax + 1, ay), (ax, ay + 1), (ax + 1, ay + 1)]);
            assert(q.pts()[0] == q.points@[0].sp());
            assert(q.pts()[1] == q.points@[1].sp());
            assert(q.pts()[2] == q.points@[2].sp());
            assert(q.pts()[3] == q.points@[3].sp());
            assert(q.lo_x() == ax);
            assert(q.lo_y() == ay);
            assert(at_anchor(q.shape, q.orientation, ax, ay)[0] == (ax, ay));
            assert(at_anchor(q.shape, q.orientation, ax, ay)[1] == (ax + 1, ay));
            assert(at_anchor(q.shape, q.orientation, ax, ay)[2] == (ax, ay + 1));
            assert(at_anchor(q.shape, q.orientation, ax, ay)[3] == (ax + 1, ay + 1));
            assert(q.pts() =~= at_anchor(q.shape, q.orientation, ax, ay));
        },
        Orientation::Three => {
            assert(p.pts()[0] == p.points@[0].sp());
            assert(p.pts()[1] == p.points@[1].sp());
            assert(p.pts()[2] == p.points@[2].sp());
            assert(p.pts()[3] == p.points@[3].sp());
            assert(at_anchor(p.shape, p.orientation, ax, ay)[0] == (ax, ay));
            assert(at_anchor(p.shape, p.orientation, ax, ay)[1] == (ax + 1, ay));
            assert(at_anchor(p.shape, p.orientation, ax, ay)[2] == (ax, ay + 1));
            assert(at_anchor(p.shape, p.orientation, ax, ay)[3] == (ax + 1, ay + 1));
            assert(p.pts()[0] == (ax, ay));
            assert(p.pts()[1] == (ax + 1, ay));
            assert(p.pts()[2] == (ax, ay + 1));
            assert(p.pts()[3] == (ax + 1, ay + 1));
            assert(p.hi_x() == ax + 1);
            assert(p.hi_y() == ay + 1);
            assert(cw_offset(p.shape, p.orientation, ax, ay) is Some);
            assert(cw_offset(p.shape, p.orientation, ax, ay) == Some((ax, ay)));
            let images = cw_images(p, ax, ay);
            assert(images.len() == 4);
            assert(images[0] == (ax, ay + 1));
            assert(images[1] == (ax, ay));
            assert(images[2] == (ax + 1, ay + 1));
            assert(images[3] == (ax + 1, ay));
            lemma_quad_members(images);
            assert forall|pt: (int, int)| q.pts().contains(pt) <==> (pt == (ax, ay + 1) || pt == (ax, ay) || pt == (ax + 1, ay + 1) || pt == (ax + 1, ay)) by {}
            lemma_step_case(q, (ax, ay + 1), (ax, ay), (ax + 1, ay + 1), (ax + 1, ay), (ax, ay), (ax + 1, ay), (ax, ay + 1), (ax + 1, ay + 1));
            assert(q.pts() == seq![(ax, ay), (ax + 1, ay), (ax, ay + 1), (ax + 1, ay + 1)]);
            assert(q.pts()[0] == q.points@[0].sp());
            assert(q.pts()[1] == q.points@[1].sp());
            assert(q.pts()[2] == q.points@[2].sp());
            assert(q.pts()[3] == q.points@[3].sp());
            assert(q.lo_x() == ax);
            assert(q.lo_y() == ay);
            assert(at_anchor(q.shape, q.orientation, ax, ay)[0] == (ax, ay));
            assert(at_anchor(q.shape, q.orientation, ax, ay)[1] == (ax + 1, ay));
            assert(at_anchor(q.shape, q.orientation, ax, ay)[2] == (ax, ay + 1));
            assert(at_anchor(q.shape, q.orientation, ax, ay)[3] == (ax + 1, ay + 1));
            assert(q.pts() =~= at_anchor(q.shape, q.orientation, ax, ay));
        },
        Orientation::Four => {
            assert(p.pts()[0] == p.points@[0].sp());
            assert(p.pts()[1] == p.points@[1].sp());
            assert(p.pts()[2] == p.points@[2].sp());
            assert(p.pts()[3] == p.points@[3].sp());
            assert(at_anchor(p.shape, p.orientation, ax, ay)[0] == (ax, ay));
            assert(at_anchor(p.shape, p.orientation, ax, ay)[1] == (ax + 1, ay));
            assert(at_anchor(p.shape, p.orientation, ax, ay)[2] == (ax, ay + 1));
            assert(at_anchor(p.shape, p.orientation, ax, ay)[3] == (ax + 1, ay + 1));
            assert(p.pts()[0] == (ax, ay));
            assert(p.pts()[1] == (ax + 1, ay));
            assert(p.pts()[2] == (ax, ay + 1));
            assert(p.pts()[3] == (ax + 1, ay + 1));
            assert(p.hi_x() == ax + 1);
            assert(p.hi_y() == ay + 1);
            assert(cw_offset(p.shape, p.orientation, ax, ay) is Some);
            assert(cw_offset(p.shape, p.orientation, ax, ay) == Some((ax, ay)));
            let images = cw_images(p, ax, ay);
            assert(images.len() == 4);
            assert(images[0] == (ax, ay + 1));
            assert(images[1] == (ax, ay));
            assert(images[2] == (ax + 1, ay + 1));
            assert(images[3] == (ax + 1, ay));
            lemma_quad_members(images);
            assert forall|pt: (int, int)| q.pts().contains(pt) <==> (pt == (ax, ay + 1) || pt == (ax, ay) || pt == (ax + 1, ay + 1) || pt == (ax + 1, ay)) by {}
            lemma_step_case(q, (ax, ay + 1), (ax, ay), (ax + 1, ay + 1), (ax + 1, ay), (ax, ay), (ax + 1, ay), (ax, ay + 1), (ax + 1, ay + 1));
            assert(q.pts() == seq![(ax, ay), (ax + 1, ay), (ax, ay + 1), (ax + 1, ay + 1)]);
            assert(q.pts()[0] == q.points@[0].sp());
            assert(q.pts()[1] == q.points@[1].sp());
            assert(q.pts()[2] == q.points@[2].sp());
            assert(q.pts()[3] == q.points@[3].sp());
            assert(q.lo_x() == ax);
            assert(q.lo_y() == ay);
            assert(at_anchor(q.shape, q.orientation, ax, ay)[0] == (ax, ay));
            assert(at_anchor(q.shape, q.orientation, ax, ay)[1] == (ax + 1, ay));
            assert(at_anchor(q.shape, q.orientation, ax, ay)[2] == (ax, ay + 1));
            assert(at_anchor(q.shape, q.orientation, ax, ay)[3] == (ax + 1, ay + 1));
            assert(q.pts() =~= at_anchor(q.shape, q.orientation, ax, ay));
        },
    }
}

/// One clockwise rotation step: from a piece in a canonical layout, the
/// rotation candidate is the canonical layout of the following orientation,
/// re-anchored as the step table says.
pub proof fn lemma_cw_step(p: Piece, q: Piece)
    requires
        wf_layout(p),
        is_cw_candidate(p, q),
    ensures
        q.shape == p.shape,
        q.orientation == next_orientation(p.orientation),
        wf_layout(q),
        q.lo_x() == p.lo_x() + cw_anchor_step(p.shape, p.orientation).0,
        q.lo_y() == p.lo_y() + cw_anchor_step(p.shape, p.orientation).1,
{
    match p.shape {
        Shape::OrangeRicky => lemma_cw_step_orange_ricky(p, q),
        Shape::BlueRicky => lemma_cw_step_blue_ricky(p, q),
        Shape::ClevelandZ => lemma_cw_step_cleveland_z(p, q),
        Shape::RhodeIslandZ => lemma_cw_step_rhode_island_z(p, q),
        Shape::Hero => lemma_cw_step_hero(p, q),
        Shape::Teewee => lemma_cw_step_teewee(p, q),
        Shape::Smashboy => lemma_cw_step_smashboy(p, q),
    }
}

#[verifier::rlimit(80)]
#[verifier::spinoff_prover]
proof fn lemma_ccw_step_orange_ricky(p: Piece, q: Piece)
    requires
        p.shape == Shape::OrangeRicky,
        wf_layout(p),
        is_ccw_candidate(p, q),
    ensures
        q.shape == p.shape,
        q.orientation == prev_orientation(p.orientation),
        wf_layout(q),
        q.lo_x() == p.lo_x() + ccw_anchor_step(p.shape, p.orientation).0,
        q.lo_y() == p.lo_y() + ccw_anchor_step(p.shape, p.orientation).1,
{
    let ax = p.lo_x();
    let ay = p.lo_y();
    match p.orientation {
        Orientation::One => {
            assert(p.pts()[0] == p.points@[0].sp());
            assert(p.pts()[1] == p.points@[1].sp());
            assert(p.pts()[2] == p.points@[2].sp());
            assert(p.pts()[3] == p.points@[3].sp());
            assert(at_anchor(p.shape, p.orientation, ax, ay)[0] == (ax, ay));
            assert(at_anchor(p.shape, p.orientation, ax, ay)[1] == (ax, ay + 1));
            assert(at_anchor(p.shape, p.orientation, ax, ay)[2] == (ax + 1, ay + 1));
            assert(at_anchor(p.shape, p.orientation, ax, ay)[3] == (ax + 2, ay + 1));
            assert(p.pts()[0] == (ax, ay));
            assert(p.pts()[1] == (ax, ay + 1));
            assert(p.pts()[2] == (ax + 1, ay + 1));
            assert(p.pts()[3] == (ax + 2, ay + 1));
            assert(p.hi_x() == ax + 2);
            assert(p.hi_y() == ay + 1);
            assert(ccw_offset(p.shape, p.orientation, ax, ay) is Some);
            assert(ccw_offset(p.shape, p.orientation, ax, ay) == Some((ax + 1, ay)));
            let images = ccw_images(p, ax + 1, ay);
            assert(images.len() == 4);
            assert(images[0] == (ax + 2, ay));
            assert(images[1] == (ax + 1, ay));
            assert(images[2] == (ax + 1, ay + 1));
            assert(images[3] == (ax + 1, ay + 2));
            lemma_quad_members(images);
            assert forall|pt: (int, int)| q.pts().contains(pt) <==> (pt == (ax + 2, ay) || pt == (ax + 1, ay) || pt == (ax + 1, ay + 1) || pt == (ax + 1, ay + 2)) by {}
            lemma_step_case(q, (ax + 2, ay), (ax + 1, ay), (ax + 1, ay + 1), (ax + 1, ay + 2), (ax + 1, ay), (ax + 2, ay), (ax + 1, ay + 1), (ax + 1, ay + 2));
            assert(q.pts() == seq![(ax + 1, ay), (ax + 2, ay), (ax + 1, ay + 1), (ax + 1, ay + 2)]);
            assert(q.pts()[0] == q.points@[0].sp());
            assert(q.pts()[1] == q.points@[1].sp());
            assert(q.pts()[2] == q.points@[2].sp());
            assert(q.pts()[3] == q.points@[3].sp());
            assert(q.lo_x() == ax + 1);
            assert(q.lo_y() == ay);
            assert(at_anchor(q.shape, q.orientation, ax + 1, ay)[0] == (ax + 1, ay));
            assert(at_anchor(q.shape, q.orientation, ax + 1, ay)[1] == (ax + 2, ay));
            assert(at_anchor(q.shape, q.orientation, ax + 1, ay)[2] == (ax + 1, ay + 1));
            assert(at_anchor(q.shape, q.orientation, ax + 1, ay)[3] == (ax + 1, ay + 2));
            assert(q.pts() =~= at_anchor(q.shape, q.orientation, ax + 1, ay));
        },
        Orientation::Two => {
            assert(p.pts()[0] == p.points@[0].sp());
            assert(p.pts()[1] == p.points@[1].sp());
            assert(p.pts()[2] == p.points@[2].sp());
            assert(p.pts()[3] == p.points@[3].sp());
            assert(at_anchor(p.shape, p.orientation, ax, ay)[0] == (ax + 1, ay));
            assert(at_anchor(p.shape, p.orientation, ax, ay)[1] == (ax + 1, ay + 1));
            assert(at_anchor(p.shape, p.orientation, ax, ay)[2] == (ax, ay + 2));
            assert(at_anchor(p.shape, p.orientation, ax, ay)[3] == (ax + 1, ay + 2));
            assert(p.pts()[0] == (ax + 1, ay));
            assert(p.pts()[1] == (ax + 1, ay + 1));
            assert(p.pts()[2] == (ax, ay + 2));
            assert(p.pts()[3] == (ax + 1, ay + 2));
            assert(p.hi_x() == ax + 1);
            assert(p.hi_y() == ay + 2);
            assert(ccw_offset(p.shape, p.orientation, ax, ay) is Some);
            assert(ccw_offset(p.shape, p.orientation, ax, ay) == Some((ax, ay)));
            let images = ccw_images(p, ax, ay);
            assert(images.len() == 4);
            assert(images[0] == (ax + 2, ay + 1));
            assert(images[1] == (ax + 1, ay + 1));
            assert(images[2] == (ax, ay));
            assert(images[3] == (ax, ay + 1));
            lemma_quad_members(images);
            assert forall|pt: (int, int)| q.pts().contains(pt) <==> (pt == (ax + 2, ay + 1) || pt == (ax + 1, ay + 1) || pt == (ax, ay) || pt == (ax, ay + 1)) by {}
            lemma_step_case(q, (ax + 2, ay + 1), (ax + 1, ay + 1), (ax, ay), (ax, ay + 1), (ax, ay), (ax, ay + 1), (ax + 1, ay + 1), (ax + 2, ay + 1));
            assert(q.pts() == seq![(ax, ay), (ax, ay + 1), (ax + 1, ay + 1), (ax + 2, ay + 1)]);
            assert(q.pts()[0] == q.points@[0].sp());
            assert(q.pts()[1] == q.points@[1].sp());
            assert(q.pts()[2] == q.points@[2].sp());
            assert(q.pts()[3] == q.points@[3].sp());
            assert(q.lo_x() == ax);
            assert(q.lo_y() == ay);
            assert(at_anchor(q.shape, q.orientation, ax, ay)[0] == (ax, ay));
            assert(at_anchor(q.shape, q.orientation, ax, ay)[1] == (ax, ay + 1));
            assert(at_anchor(q.shape, q.orientation, ax, ay)[2] == (ax + 1, ay + 1));
            assert(at_anchor(q.shape, q.orientation, ax, ay)[3] == (ax + 2, ay + 1));
            assert(q.pts() =~= at_anchor(q.shape, q.orientation, ax, ay));
        },
        Orientation::Three => {
            assert(p.pts()[0] == p.points@[0].sp());
            assert(p.pts()[1] == p.points@[1].sp());
            assert(p.pts()[2] == p.points@[2].sp());
            assert(p.pts()[3] == p.points@[3].sp());
            assert(at_anchor(p.shape, p.orientation, ax, ay)[0] == (ax, ay));
            assert(at_anchor(p.shape, p.orientation, ax, ay)[1] == (ax + 1, ay));
            assert(at_anchor(p.shape, p.orientation, ax, ay)[2] == (ax + 2, ay));
            assert(at_anchor(p.shape, p.orientation, ax, ay)[3] == (ax + 2, ay + 1));
            assert(p.pts()[0] == (ax, ay));
            assert(p.pts()[1] == (ax + 1, ay));
            assert(p.pts()[2] == (ax + 2, ay));
            assert(p.pts()[3] == (ax + 2, ay + 1));
            assert(p.hi_x() == ax + 2);
            assert(p.hi_y() == ay + 1);
            assert(ccw_offset(p.shape, p.orientation, ax, ay) is Some);
            assert(ccw_offset(p.shape, p.orientation, ax, ay) == Some((ax, ay - 1)));
            let images = ccw_images(p, ax, ay - 1);
            assert(images.len() == 4);
            assert(images[0] == (ax + 1, ay - 1));
            assert(images[1] == (ax + 1, ay));
            assert(images[2] == (ax + 1, ay + 1));
            assert(images[3] == (ax, ay + 1));
            lemma_quad_members(images);
            assert forall|pt: (int, int)| q.pts().contains(pt) <==> (pt == (ax + 1, ay - 1) || pt == (ax + 1, ay) || pt == (ax + 1, ay + 1) || pt == (ax, ay + 1)) by {}
            lemma_step_case(q, (ax + 1, ay - 1), (ax + 1, ay), (ax + 1, ay + 1), (ax, ay + 1), (ax + 1, ay - 1), (ax + 1, ay), (ax, ay + 1), (ax + 1, ay + 1));
            assert(q.pts() == seq![(ax + 1, ay - 1), (ax + 1, ay), (ax, ay + 1), (ax + 1, ay + 1)]);
            assert(q.pts()[0] == q.points@[0].sp());
            assert(q.pts()[1] == q.points@[1].sp());
            assert(q.pts()[2] == q.points@[2].sp());
            assert(q.pts()[3] == q.points@[3].sp());
            assert(q.lo_x() == ax);
            assert(q.lo_y() == ay - 1);
            assert(at_anchor(q.shape, q.orientation, ax, ay - 1)[0] == (ax + 1, ay - 1));
            assert(at_anchor(q.shape, q.orientation, ax, ay - 1)[1] == (ax + 1, ay));
            assert(at_anchor(q.shape, q.orientation, ax, ay - 1)[2] == (ax, ay + 1));
            assert(at_anchor(q.shape, q.orientation, ax, ay - 1)[3] == (ax + 1, ay + 1));
            assert(q.pts() =~= at_anchor(q.shape, q.orientation, ax, ay - 1));
        },
        Orientation::Four => {
            assert(p.pts()[0] == p.points@[0].sp());
            assert(p.pts()[1] == p.points@[1].sp());
            assert(p.pts()[2] == p.points@[2].sp());
            assert(p.pts()[3] == p.points@[3].sp());
            assert(at_anchor(p.shape, p.orientation, ax, ay)[0] == (ax, ay));
            assert(at_anchor(p.shape, p.orientation, ax, ay)[1] == (ax + 1, ay));
            assert(at_anchor(p.shape, p.orientation, ax, ay)[2] == (ax, ay + 1));
            assert(at_anchor(p.shape, p.orientation, ax, ay)[3] == (ax, ay + 2));
            assert(p.pts()[0] == (ax, ay));
            assert(p.pts()[1] == (ax + 1, ay));
            assert(p.pts()[2] == (ax, ay + 1));
            assert(p.pts()[3] == (ax, ay + 2));
            assert(p.hi_x() == ax + 1);
            assert(p.hi_y() == ay + 2);
            assert(ccw_offset(p.shape, p.orientation, ax, ay) is Some);
            assert(ccw_offset(p.shape, p.orientation, ax, ay) == Some((ax - 1, ay + 1)));
            let images = ccw_images(p, ax - 1, ay + 1);
            assert(images.len() == 4);
            assert(images[0] == (ax + 1, ay + 1));
            assert(images[1] == (ax + 1, ay + 2));
            assert(images[2] == (ax, ay + 1));
            assert(images[3] == (ax - 1, ay + 1));
            lemma_quad_members(images);
            assert forall|pt: (int, int)| q.pts().contains(pt) <==> (pt == (ax + 1, ay + 1) || pt == (ax + 1, ay + 2) || pt == (ax, ay + 1) || pt == (ax - 1, ay + 1)) by {}
            lemma_step_case(q, (ax + 1, ay + 1), (ax + 1, ay + 2), (ax, ay + 1), (ax - 1, ay + 1), (ax - 1, ay + 1), (ax, ay + 1), (ax + 1, ay + 1), (ax + 1, ay + 2));
            assert(q.pts() == seq![(ax - 1, ay + 1), (ax, ay + 1), (ax + 1, ay + 1), (ax + 1, ay + 2)]);
            assert(q.pts()[0] == q.points@[0].sp());
            assert(q.pts()[1] == q.points@[1].sp());
            assert(q.pts()[2] == q.points@[2].sp());
            assert(q.pts()[3] == q.points@[3].sp());
            assert(q.lo_x() == ax - 1);
            assert(q.lo_y() == ay + 1);
            assert(at_anchor(q.shape, q.orientation, ax - 1, ay + 1)[0] == (ax - 1, ay + 1));
            assert(at_anchor(q.shape, q.orientation, ax - 1, ay + 1)[1] == (ax, ay + 1));
            assert(at_anchor(q.shape, q.orientation, ax - 1, ay + 1)[2] == (ax + 1, ay + 1));
            assert(at_anchor(q.shape, q.orientation, ax - 1, ay + 1)[3] == (ax + 1, ay + 2));
            assert(q.pts() =~= at_anchor(q.shape, q.orientation, ax - 1, ay + 1));
        },
    }
}

#[verifier::rlimit(80)]
#[verifier::spinoff_prover]
proof fn lemma_ccw_step_blue_ricky(p: Piece, q: Piece)
    requires
        p.shape == Shape::BlueRicky,
        wf_layout(p),
        is_ccw_candidate(p, q),
    ensures
        q.shape == p.shape,
        q.orientation == prev_orientation(p.orientation),
        wf_layout(q),
        q.lo_x() == p.lo_x() + ccw_anchor_step(p.shape, p.orientation).0,
        q.lo_y() == p.lo_y() + ccw_anchor_step(p.shape, p.orientation).1,
{
    let ax = p.lo_x();
    let ay = p.lo_y();
    match p.orientation {
        Orientation::One => {
            assert(p.pts()[0] == p.points@[0].sp());
            assert(p.pts()[1] == p.points@[1].sp());
            assert(p.pts()[2] == p.points@[2].sp());
            assert(p.pts()[3] == p.points@[3].sp());
            assert(at_anchor(p.shape, p.orientation, ax, ay)[0] == (ax + 2, ay));
            assert(at_anchor(p.shape, p.orientation, ax, ay)[1] == (ax, ay + 1));
            assert(at_anchor(p.shape, p.orientation, ax, ay)[2] == (ax + 1, ay + 1));
            assert(at_anchor(p.shape, p.orientation, ax, ay)[3] == (ax + 2, ay + 1));
            assert(p.pts()[0] == (ax + 2, ay));
            assert(p.pts()[1] == (ax, ay + 1));
            assert(p.pts()[2] == (ax + 1, ay + 1));
            assert(p.pts()[3] == (ax + 2, ay + 1));
            assert(p.hi_x() == ax + 2);
            assert(p.hi_y() == ay + 1);
            assert(ccw_offset(p.shape, p.orientation, ax, ay) is Some);
            assert(ccw_offset(p.shape, p.orientation, ax, ay) == Some((ax + 1, ay)));
            let images = ccw_images(p, ax + 1, ay);
            assert(images.len() == 4);
            assert(images[0] == (ax + 2, ay + 2));
            assert(images[1] == (ax + 1, ay));
            assert(images[2] == (ax + 1, ay + 1));
            assert(images[3] == (ax + 1, ay + 2));
            lemma_quad_members(images);
            assert forall|pt: (int, int)| q.pts().contains(pt) <==> (pt == (ax + 2, ay + 2) || pt == (ax + 1, ay) || pt == (ax + 1, ay + 1) || pt == (ax + 1, ay + 2)) by {}
            lemma_step_case(q, (ax + 2, ay + 2), (ax + 1, ay), (ax + 1, ay + 1), (ax + 1, ay + 2), (ax + 1, ay), (ax + 1, ay + 1), (ax + 1, ay + 2), (ax + 2, ay + 2));
            assert(q.pts() == seq![(ax + 1, ay), (ax + 1, ay + 1), (ax + 1, ay + 2), (ax + 2, ay + 2)]);
            assert(q.pts()[0] == q.points@[0].sp());
            assert(q.pts()[1] == q.points@[1].sp());
            assert(q.pts()[2] == q.points@[2].sp());
            assert(q.pts()[3] == q.points@[3].sp());
            assert(q.lo_x() == ax + 1);
            assert(q.lo_y() == ay);
            assert(at_anchor(q.shape, q.orientation, ax + 1, ay)[0] == (ax + 1, ay));
            assert(at_anchor(q.shape, q.orientation, ax + 1, ay)[1] == (ax + 1, ay + 1));
            assert(at_anchor(q.shape, q.orientation, ax + 1, ay)[2] == (ax + 1, ay + 2));
            assert(at_anchor(q.shape, q.orientation, ax + 1, ay)[3] == (ax + 2, ay + 2));
            assert(q.pts() =~= at_anchor(q.shape, q.orientation, ax + 1, ay));
        },
        Orientation::Two => {
            assert(p.pts()[0] == p.points@[0].sp());
            assert(p.pts()[1] == p.points@[1].sp());
            assert(p.pts()[2] == p.points@[2].sp());
            assert(p.pts()[3] == p.points@[3].sp());
            assert(at_anchor(p.shape, p.orientation, ax, ay)[0] == (ax, ay));
            assert(at_anchor(p.shape, p.orientation, ax, ay)[1] == (ax + 1, ay));
            assert(at_anchor(p.shape, p.orientation, ax, ay)[2] == (ax + 1, ay + 1));
            assert(at_anchor(p.shape, p.orientation, ax, ay)[3] == (ax + 1, ay + 2));
            assert(p.pts()[0] == (ax, ay));
            assert(p.pts()[1] == (ax + 1, ay));
            assert(p.pts()[2] == (ax + 1, ay + 1));
            assert(p.pts()[3] == (ax + 1, ay + 2));
            assert(p.hi_x() == ax + 1);
            assert(p.hi_y() == ay + 2);
            assert(ccw_offset(p.shape, p.orientation, ax, ay) is Some);
            assert(ccw_offset(p.shape, p.orientation, ax, ay) == Some((ax, ay)));
            let images = ccw_images(p, ax, ay);
            assert(images.len() == 4);
            assert(images[0] == (ax + 2, ay));
            assert(images[1] == (ax + 2, ay + 1));
            assert(images[2] == (ax + 1, ay + 1));
            assert(images[3] == (ax, ay + 1));
            lemma_quad_members(images);
            assert forall|pt: (int, int)| q.pts().contains(pt) <==> (pt == (ax + 2, ay) || pt == (ax + 2, ay + 1) || pt == (ax + 1, ay + 1) || pt == (ax, ay + 1)) by {}
            lemma_step_case(q, (ax + 2, ay), (ax + 2, ay + 1), (ax + 1, ay + 1), (ax, ay + 1), (ax + 2, ay), (ax, ay + 1), (ax + 1, ay + 1), (ax + 2, ay + 1));
            assert(q.pts() == seq![(ax + 2, ay), (ax, ay + 1), (ax + 1, ay + 1), (ax + 2, ay + 1)]);
            assert(q.pts()[0] == q.points@[0].sp());
            assert(q.pts()[1] == q.points@[1].sp());
            assert(q.pts()[2] == q.points@[2].sp());
            assert(q.pts()[3] == q.points@[3].sp());
            assert(q.lo_x() == ax);
            assert(q.lo_y() == ay);
            assert(at_anchor(q.shape, q.orientation, ax, ay)[0] == (ax + 2, ay));
            assert(at_anchor(q.shape, q.orientation, ax, ay)[1] == (ax, ay + 1));
            assert(at_anchor(q.shape, q.orientation, ax, ay)[2] == (ax + 1, ay + 1));
            assert(at_anchor(q.shape, q.orientation, ax, ay)[3] == (ax + 2, ay + 1));
            assert(q.pts() =~= at_anchor(q.shape, q.orientation, ax, ay));
        },
        Orientation::Three => {
            assert(p.pts()[0] == p.points@[0].sp());
            assert(p.pts()[1] == p.points@[1].sp());
            assert(p.pts()[2] == p.points@[2].sp());
            assert(p.pts()[3] == p.points@[3].sp());
            assert(at_anchor(p.shape, p.orientation, ax, ay)[0] == (ax, ay));
            assert(at_anchor(p.shape, p.orientation, ax, ay)[1] == (ax + 1, ay));
            assert(at_anchor(p.shape, p.orientation, ax, ay)[2] == (ax + 2, ay));
            assert(at_anchor(p.shape, p.orientation, ax, ay)[3] == (ax, ay + 1));
            assert(p.pts()[0] == (ax, ay));
            assert(p.pts()[1] == (ax + 1, ay));
            assert(p.pts()[2] == (ax + 2, ay));
            assert(p.pts()[3] == (ax, ay + 1));
            assert(p.hi_x() == ax + 2);
            assert(p.hi_y() == ay + 1);
            assert(ccw_offset(p.shape, p.orientation, ax, ay) is Some);
            assert(ccw_offset(p.shape, p.orientation, ax, ay) == Some((ax, ay - 1)));
            let images = ccw_images(p, ax, ay - 1);
            assert(images.len() == 4);
            assert(images[0] == (ax + 1, ay - 1));
            assert(images[1] == (ax + 1, ay));
            assert(images[2] == (ax + 1, ay + 1));
            assert(images[3] == (ax, ay - 1));
            lemma_quad_members(images);
            assert forall|pt: (int, int)| q.pts().contains(pt) <==> (pt == (ax + 1, ay - 1) || pt == (ax + 1, ay) || pt == (ax + 1, ay + 1) || pt == (ax, ay - 1)) by {}
            lemma_step_case(q, (ax + 1, ay - 1), (ax + 1, ay), (ax + 1, ay + 1), (ax, ay - 1), (ax, ay - 1), (ax + 1, ay - 1), (ax + 1, ay), (ax + 1, ay + 1));
            assert(q.pts() == seq![(ax, ay - 1), (ax + 1, ay - 1), (ax + 1, ay), (ax + 1, ay + 1)]);
            assert(q.pts()[0] == q.points@[0].sp());
            assert(q.pts()[1] == q.points@[1].sp());
            assert(q.pts()[2] == q.points@[2].sp());
            assert(q.pts()[3] == q.points@[3].sp());
            assert(q.lo_x() == ax);
            assert(q.lo_y() == ay - 1);
            assert(at_anchor(q.shape, q.orientation, ax, ay - 1)[0] == (ax, ay - 1));
            assert(at_anchor(q.shape, q.orientation, ax, ay - 1)[1] == (ax + 1, ay - 1));
            assert(at_anchor(q.shape, q.orientation, ax, ay - 1)[2] == (ax + 1, ay));
            assert(at_anchor(q.shape, q.orientation, ax, ay - 1)[3] == (ax + 1, ay + 1));
            assert(q.pts() =~= at_anchor(q.shape, q.orientation, ax, ay - 1));
        },
        Orientation::Four => {
            assert(p.pts()[0] == p.points@[0].sp());
            assert(p.pts()[1] == p.points@[1].sp());
            assert(p.pts()[2] == p.points@[2].sp());
            assert(p.pts()[3] == p.points@[3].sp());
            assert(at_anchor(p.shape, p.orientation, ax, ay)[0] == (ax, ay));
            assert(at_anchor(p.shape, p.orientation, ax, ay)[1] == (ax, ay + 1));
            assert(at_anchor(p.shape, p.orientation, ax, ay)[2] == (ax, ay + 2));
            assert(at_anchor(p.shape, p.orientation, ax, ay)[3] == (ax + 1, ay + 2));
            assert(p.pts()[0] == (ax, ay));
            assert(p.pts()[1] == (ax, ay + 1));
            assert(p.pts()[2] == (ax, ay + 2));
            assert(p.pts()[3] == (ax + 1, ay + 2));
            assert(p.hi_x() == ax + 1);
            assert(p.hi_y() == ay + 2);
            assert(ccw_offset(p.shape, p.orientation, ax, ay) is Some);
            assert(ccw_offset(p.shape, p.orientation, ax, ay) == Some((ax - 1, ay + 1)));
            let images = ccw_images(p, ax - 1, ay + 1);
            assert(images.len() == 4);
            assert(images[0] == (ax + 1, ay + 1));
            assert(images[1] == (ax, ay + 1));
            assert(images[2] == (ax - 1, ay + 1));
            assert(images[3] == (ax - 1, ay + 2));
            lemma_quad_members(images);
            assert forall|pt: (int, int)| q.pts().contains(pt) <==> (pt == (ax + 1, ay + 1) || pt == (ax, ay + 1) || pt == (ax - 1, ay + 1) || pt == (ax - 1, ay + 2)) by {}
            lemma_step_case(q, (ax + 1, ay + 1), (ax, ay + 1), (ax - 1, ay + 1), (ax - 1, ay + 2), (ax - 1, ay + 1), (ax, ay + 1), (ax + 1, ay + 1), (ax - 1, ay + 2));
            assert(q.pts() == seq![(ax - 1, ay + 1), (ax, ay + 1), (ax + 1, ay + 1), (ax - 1, ay + 2)]);
            assert(q.pts()[0] == q.points@[0].sp());
            assert(q.pts()[1] == q.points@[1].sp());
            assert(q.pts()[2] == q.points@[2].sp());
            assert(q.pts()[3] == q.points@[3].sp());
            assert(q.lo_x() == ax - 1);
            assert(q.lo_y() == ay + 1);
            assert(at_anchor(q.shape, q.orientation, ax - 1, ay + 1)[0] == (ax - 1, ay + 1));
            assert(at_anchor(q.shape, q.orientation, ax - 1, ay + 1)[1] == (ax, ay + 1));
            assert(at_anchor(q.shape, q.orientation, ax - 1, ay + 1)[2] == (ax + 1, ay + 1));
            assert(at_anchor(q.shape, q.orientation, ax - 1, ay + 1)[3] == (ax - 1, ay + 2));
            assert(q.pts() =~= at_anchor(q.shape, q.orientation, ax - 1, ay + 1));
        },
    }
}

#[verifier::rlimit(80)]
#[verifier::spinoff_prover]
proof fn lemma_ccw_step_cleveland_z(p: Piece, q: Piece)
    requires
        p.shape == Shape::ClevelandZ,
        wf_layout(p),
        is_ccw_candidate(p, q),
    ensures
        q.shape == p.shape,
        q.orientation == prev_orientation(p.orientation),
        wf_layout(q),
        q.lo_x() == p.lo_x() + ccw_anchor_step(p.shape, p.orientation).0,
        q.lo_y() == p.lo_y() + ccw_anchor_step(p.shape, p.orientation).1,
{
    let ax = p.lo_x();
    let ay = p.lo_y();
    match p.orientation {
        Orientation::One => {
            assert(p.pts()[0] == p.points@[0].sp());
            assert(p.pts()[1] == p.points@[1].sp());
            assert(p.pts()[2] == p.points@[2].sp());
            assert(p.pts()[3] == p.points@[3].sp());
            assert(at_anchor(p.shape, p.orientation, ax, ay)[0] == (ax + 1, ay));
            assert(at_anchor(p.shape, p.orientation, ax, ay)[1] == (ax + 2, ay));
            assert(at_anchor(p.shape, p.orientation, ax, ay)[2] == (ax, ay + 1));
            assert(at_anchor(p.shape, p.orientation, ax, ay)[3] == (ax + 1, ay + 1));
            assert(p.pts()[0] == (ax + 1, ay));
            assert(p.pts()[1] == (ax + 2, ay));
            assert(p.pts()[2] == (ax, ay + 1));
            assert(p.pts()[3] == (ax + 1, ay + 1));
            assert(p.hi_x() == ax + 2);
            assert(p.hi_y() == ay + 1);
            assert(ccw_offset(p.shape, p.orientation, ax, ay) is Some);
            assert(ccw_offset(p.shape, p.orientation, ax, ay) == Some((ax + 1, ay)));
            let images = ccw_images(p, ax + 1, ay);
            assert(images.len() == 4);
            assert(images[0] == (ax + 2, ay + 1));
            assert(images[1] == (ax + 2, ay + 2));
            assert(images[2] == (ax + 1, ay));
            assert(images[3] == (ax + 1, ay + 1));
            lemma_quad_members(images);
            assert forall|pt: (int, int)| q.pts().contains(pt) <==> (pt == (ax + 2, ay + 1) || pt == (ax + 2, ay + 2) || pt == (ax + 1, ay) || pt == (ax + 1, ay + 1)) by {}
            lemma_step_case(q, (ax + 2, ay + 1), (ax + 2, ay + 2), (ax + 1, ay), (ax + 1, ay + 1), (ax + 1, ay), (ax + 1, ay + 1), (ax + 2, ay + 1), (ax + 2, ay + 2));
            assert(q.pts() == seq![(ax + 1, ay), (ax + 1, ay + 1), (ax + 2, ay + 1), (ax + 2, ay + 2)]);
            assert(q.pts()[0] == q.points@[0].sp());
            assert(q.pts()[1] == q.points@[1].sp());
            assert(q.pts()[2] == q.points@[2].sp());
            assert(q.pts()[3] == q.points@[3].sp());
            assert(q.lo_x() == ax + 1);
            assert(q.lo_y() == ay);
            assert(at_anchor(q.shape, q.orientation, ax + 1, ay)[0] == (ax + 1, ay));
            assert(at_anchor(q.shape, q.orientation, ax + 1, ay)[1] == (ax + 1, ay + 1));
            assert(at_anchor(q.shape, q.orientation, ax + 1, ay)[2] == (ax + 2, ay + 1));
            assert(at_anchor(q.shape, q.orientation, ax + 1, ay)[3] == (ax + 2, ay + 2));
            assert(q.pts() =~= at_anchor(q.shape, q.orientation, ax + 1, ay));
        },
        Orientation::Two => {
            assert(p.pts()[0] == p.points@[0].sp());
            assert(p.pts()[1] == p.points@[1].sp());
            assert(p.pts()[2] == p.points@[2].sp());
            assert(p.pts()[3] == p.points@[3].sp());
            assert(at_anchor(p.shape, p.orientation, ax, ay)[0] == (ax, ay));
            assert(at_anchor(p.shape, p.orientation, ax, ay)[1] == (ax, ay + 1));
            assert(at_anchor(p.shape, p.orientation, ax, ay)[2] == (ax + 1, ay + 1));
            assert(at_anchor(p.shape, p.orientation, ax, ay)[3] == (ax + 1, ay + 2));
            assert(p.pts()[0] == (ax, ay));
            assert(p.pts()[1] == (ax, ay + 1));
            assert(p.pts()[2] == (ax + 1, ay + 1));
            assert(p.pts()[3] == (ax + 1, ay + 2));
            assert(p.hi_x() == ax + 1);
            assert(p.hi_y() == ay + 2);
            assert(ccw_offset(p.shape, p.orientation, ax, ay) is Some);
            assert(ccw_offset(p.shape, p.orientation, ax, ay) == Some((ax - 1, ay)));
            let images = ccw_images(p, ax - 1, ay);
            assert(images.len() == 4);
            assert(images[0] == (ax + 1, ay));
            assert(images[1] == (ax, ay));
            assert(images[2] == (ax, ay + 1));
            assert(images[3] == (ax - 1, ay + 1));
            lemma_quad_members(images);
            assert forall|pt: (int, int)| q.pts().contains(pt) <==> (pt == (ax + 1, ay) || pt == (ax, ay) || pt == (ax, ay + 1) || pt == (ax - 1, ay + 1)) by {}
            lemma_step_case(q, (ax + 1, ay), (ax, ay), (ax, ay + 1), (ax - 1, ay + 1), (ax, ay), (ax + 1, ay), (ax - 1, ay + 1), (ax, ay + 1));
            assert(q.pts() == seq![(ax, ay), (ax + 1, ay), (ax - 1, ay + 1), (ax, ay + 1)]);
            assert(q.pts()[0] == q.points@[0].sp());
            assert(q.pts()[1] == q.points@[1].sp());
            assert(q.pts()[2] == q.points@[2].sp());
            assert(q.pts()[3] == q.points@[3].sp());
            assert(q.lo_x() == ax - 1);
            assert(q.lo_y() == ay);
            assert(at_anchor(q.shape, q.orientation, ax - 1, ay)[0] == (ax, ay));
            assert(at_anchor(q.shape, q.orientation, ax - 1, ay)[1] == (ax + 1, ay));
            assert(at_anchor(q.shape, q.orientation, ax - 1, ay)[2] == (ax - 1, ay + 1));
            assert(at_anchor(q.shape, q.orientation, ax - 1, ay)[3] == (ax, ay + 1));
            assert(q.pts() =~= at_anchor(q.shape, q.orientation, ax - 1, ay));
        },
        Orientation::Three => {
            assert(p.pts()[0] == p.points@[0].sp());
            assert(p.pts()[1] == p.points@[1].sp());
            assert(p.pts()[2] == p.points@[2].sp());
            assert(p.pts()[3] == p.points@[3].sp());
            assert(at_anchor(p.shape, p.orientation, ax, ay)[0] == (ax + 1, ay));
            assert(at_anchor(p.shape, p.orientation, ax, ay)[1] == (ax + 2, ay));
            assert(at_anchor(p.shape, p.orientation, ax, ay)[2] == (ax, ay + 1));
            assert(at_anchor(p.shape, p.orientation, ax, ay)[3] == (ax + 1, ay + 1));
            assert(p.pts()[0] == (ax + 1, ay));
            assert(p.pts()[1] == (ax + 2, ay));
            assert(p.pts()[2] == (ax, ay + 1));
            assert(p.pts()[3] == (ax + 1, ay + 1));
            assert(p.hi_x() == ax + 2);
            assert(p.hi_y() == ay + 1);
            assert(ccw_offset(p.shape, p.orientation, ax, ay) is Some);
            assert(ccw_offset(p.shape, p.orientation, ax, ay) == Some((ax + 1, ay)));
            let images = ccw_images(p, ax + 1, ay);
            assert(images.len() == 4);
            assert(images[0] == (ax + 2, ay + 1));
            assert(images[1] == (ax + 2, ay + 2));
            assert(images[2] == (ax + 1, ay));
            assert(images[3] == (ax + 1, ay + 1));
            lemma_quad_members(images);
            assert forall|pt: (int, int)| q.pts().contains(pt) <==> (pt == (ax + 2, ay + 1) || pt == (ax + 2, ay + 2) || pt == (ax + 1, ay) || pt == (ax + 1, ay + 1)) by {}
            lemma_step_case(q, (ax + 2, ay + 1), (ax + 2, ay + 2), (ax + 1, ay), (ax + 1, ay + 1), (ax + 1, ay), (ax + 1, ay + 1), (ax + 2, ay + 1), (ax + 2, ay + 2));
            assert(q.pts() == seq![(ax + 1, ay), (ax + 1, ay + 1), (ax + 2, ay + 1), (ax + 2, ay + 2)]);
            assert(q.pts()[0] == q.points@[0].sp());
            assert(q.pts()[1] == q.points@[1].sp());
            assert(q.pts()[2] == q.points@[2].sp());
            assert(q.pts()[3] == q.points@[3].sp());
            assert(q.lo_x() == ax + 1);
            assert(q.lo_y() == ay);
            assert(at_anchor(q.shape, q.orientation, ax + 1, ay)[0] == (ax + 1, ay));
            assert(at_anchor(q.shape, q.orientation, ax + 1, ay)[1] == (ax + 1, ay + 1));
            assert(at_anchor(q.shape, q.orientation, ax + 1, ay)[2] == (ax + 2, ay + 1));
            assert(at_anchor(q.shape, q.orientation, ax + 1, ay)[3] == (ax + 2, ay + 2));
            assert(q.pts() =~= at_anchor(q.shape, q.orientation, ax + 1, ay));
        },
        Orientation::Four => {
            assert(p.pts()[0] == p.points@[0].sp());
            assert(p.pts()[1] == p.points@[1].sp());
            assert(p.pts()[2] == p.points@[2].sp());
            assert(p.pts()[3] == p.points@[3].sp());
            assert(at_anchor(p.shape, p.orientation, ax, ay)[0] == (ax, ay));
            assert(at_anchor(p.shape, p.orientation, ax, ay)[1] == (ax, ay + 1));
            assert(at_anchor(p.shape, p.orientation, ax, ay)[2] == (ax + 1, ay + 1));
            assert(at_anchor(p.shape, p.orientation, ax, ay)[3] == (ax + 1, ay + 2));
            assert(p.pts()[0] == (ax, ay));
            assert(p.pts()[1] == (ax, ay + 1));
            assert(p.pts()[2] == (ax + 1, ay + 1));
            assert(p.pts()[3] == (ax + 1, ay + 2));
            assert(p.hi_x() == ax + 1);
            assert(p.hi_y() == ay + 2);
            assert(ccw_offset(p.shape, p.orientation, ax, ay) is Some);
            assert(ccw_offset(p.shape, p.orientation, ax, ay) == Some((ax - 1, ay)));
            let images = ccw_images(p, ax - 1, ay);
            assert(images.len() == 4);
            assert(images[0] == (ax + 1, ay));
            assert(images[1] == (ax, ay));
            assert(images[2] == (ax, ay + 1));
            assert(images[3] == (ax - 1, ay + 1));
            lemma_quad_members(images);
            assert forall|pt: (int, int)| q.pts().contains(pt) <==> (pt == (ax + 1, ay) || pt == (ax, ay) || pt == (ax, ay + 1) || pt == (ax - 1, ay + 1)) by {}
            lemma_step_case(q, (ax + 1, ay), (ax, ay), (ax, ay + 1), (ax - 1, ay + 1), (ax, ay), (ax + 1, ay), (ax - 1, ay + 1), (ax, ay + 1));
            assert(q.pts() == seq![(ax, ay), (ax + 1, ay), (ax - 1, ay + 1), (ax, ay + 1)]);
            assert(q.pts()[0] == q.points@[0].sp());
            assert(q.pts()[1] == q.points@[1].sp());
            assert(q.pts()[2] == q.points@[2].sp());
            assert(q.pts()[3] == q.points@[3].sp());
            assert(q.lo_x() == ax - 1);
            assert(q.lo_y() == ay);
            assert(at_anchor(q.shape, q.orientation, ax - 1, ay)[0] == (ax, ay));
            assert(at_anchor(q.shape, q.orientation, ax - 1, ay)[1] == (ax + 1, ay));
            assert(at_anchor(q.shape, q.orientation, ax - 1, ay)[2] == (ax - 1, ay + 1));
            assert(at_anchor(q.shape, q.orientation, ax - 1, ay)[3] == (ax, ay + 1));
            assert(q.pts() =~= at_anchor(q.shape, q.orientation, ax - 1, ay));
        },
    }
}

#[verifier::rlimit(80)]
#[verifier::spinoff_prover]
proof fn lemma_ccw_step_rhode_island_z(p: Piece, q: Piece)
    requires
        p.shape == Shape::RhodeIslandZ,
        wf_layout(p),
        is_ccw_candidate(p, q),
    ensures
        q.shape == p.shape,
        q.orientation == prev_orientation(p.orientation),
        wf_layout(q),
        q.lo_x() == p.lo_x() + ccw_anchor_step(p.shape, p.orientation).0,
        q.lo_y() == p.lo_y() + ccw_anchor_step(p.shape, p.orientation).1,
{
    let ax = p.lo_x();
    let ay = p.lo_y();
    match p.orientation {
        Orientation::One => {
            assert(p.pts()[0] == p.points@[0].sp());
            assert(p.pts()[1] == p.points@[1].sp());
            assert(p.pts()[2] == p.points@[2].sp());
            assert(p.pts()[3] == p.points@[3].sp());
            assert(at_anchor(p.shape, p.orientation, ax, ay)[0] == (ax, ay));
            assert(at_anchor(p.shape, p.orientation, ax, ay)[1] == (ax + 1, ay));
            assert(at_anchor(p.shape, p.orientation, ax, ay)[2] == (ax + 1, ay + 1));
            assert(at_anchor(p.shape, p.orientation, ax, ay)[3] == (ax + 2, ay + 1));
            assert(p.pts()[0] == (ax, ay));
            assert(p.pts()[1] == (ax + 1, ay));
            assert(p.pts()[2] == (ax + 1, ay + 1));
            assert(p.pts()[3] == (ax + 2, ay + 1));
            assert(p.hi_x() == ax + 2);
            assert(p.hi_y() == ay + 1);
            assert(ccw_offset(p.shape, p.orientation, ax, ay) is Some);
            assert(ccw_offset(p.shape, p.orientation, ax, ay) == Some((ax + 1, ay)));
            let images = ccw_images(p, ax + 1, ay);
            assert(images.len() == 4);
            assert(images[0] == (ax + 2, ay));
            assert(images[1] == (ax + 2, ay + 1));
            assert(images[2] == (ax + 1, ay + 1));
            assert(images[3] == (ax + 1, ay + 2));
            lemma_quad_members(images);
            assert forall|pt: (int, int)| q.pts().contains(pt) <==> (pt == (ax + 2, ay) || pt == (ax + 2, ay + 1) || pt == (ax + 1, ay + 1) || pt == (ax + 1, ay + 2)) by {}
            lemma_step_case(q, (ax + 2, ay), (ax + 2, ay + 1), (ax + 1, ay + 1), (ax + 1, ay + 2), (ax + 2, ay), (ax + 1, ay + 1), (ax + 2, ay + 1), (ax + 1, ay + 2));
            assert(q.pts() == seq![(ax + 2, ay), (ax + 1, ay + 1), (ax + 2, ay + 1), (ax + 1, ay + 2)]);
            assert(q.pts()[0] == q.points@[0].sp());
            assert(q.pts()[1] == q.points@[1].sp());
            assert(q.pts()[2] == q.points@[2].sp());
            assert(q.pts()[3] == q.points@[3].sp());
            assert(q.lo_x() == ax + 1);
            assert(q.lo_y() == ay);
            assert(at_anchor(q.shape, q.orientation, ax + 1, ay)[0] == (ax + 2, ay));
            assert(at_anchor(q.shape, q.orientation, ax + 1, ay)[1] == (ax + 1, ay + 1));
            assert(at_anchor(q.shape, q.orientation, ax + 1, ay)[2] == (ax + 2, ay + 1));
            assert(at_anchor(q.shape, q.orientation, ax + 1, ay)[3] == (ax + 1, ay + 2));
            assert(q.pts() =~= at_anchor(q.shape, q.orientation, ax + 1, ay));
        },
        Orientation::Two => {
            assert(p.pts()[0] == p.points@[0].sp());
            assert(p.pts()[1] == p.points@[1].sp());
            assert(p.pts()[2] == p.points@[2].sp());
            assert(p.pts()[3] == p.points@[3].sp());
            assert(at_anchor(p.shape, p.orientation, ax, ay)[0] == (ax + 1, ay));
            assert(at_anchor(p.shape, p.orientation, ax, ay)[1] == (ax, ay + 1));
            assert(at_anchor(p.shape, p.orientation, ax, ay)[2] == (ax + 1, ay + 1));
            assert(at_anchor(p.shape, p.orientation, ax, ay)[3] == (ax, ay + 2));
            assert(p.pts()[0] == (ax + 1, ay));
            assert(p.pts()[1] == (ax, ay + 1));
            assert(p.pts()[2] == (ax + 1, ay + 1));
            assert(p.pts()[3] == (ax, ay + 2));
            assert(p.hi_x() == ax + 1);
            assert(p.hi_y() == ay + 2);
            assert(ccw_offset(p.shape, p.orientation, ax, ay) is Some);
            assert(ccw_offset(p.shape, p.orientation, ax, ay) == Some((ax - 1, ay)));
            let images = ccw_images(p, ax - 1, ay);
            assert(images.len() == 4);
            assert(images[0] == (ax + 1, ay + 1));
            assert(images[1] == (ax, ay));
            assert(images[2] == (ax, ay + 1));
            assert(images[3] == (ax - 1, ay));
            lemma_quad_members(images);
            assert forall|pt: (int, int)| q.pts().contains(pt) <==> (pt == (ax + 1, ay + 1) || pt == (ax, ay) || pt == (ax, ay + 1) || pt == (ax - 1, ay)) by {}
            lemma_step_case(q, (ax + 1, ay + 1), (ax, ay), (ax, ay + 1), (ax - 1, ay), (ax - 1, ay), (ax, ay), (ax, ay + 1), (ax + 1, ay + 1));
            assert(q.pts() == seq![(ax - 1, ay), (ax, ay), (ax, ay + 1), (ax + 1, ay + 1)]);
            assert(q.pts()[0] == q.points@[0].sp());
            assert(q.pts()[1] == q.points@[1].sp());
            assert(q.pts()[2] == q.points@[2].sp());
            assert(q.pts()[3] == q.points@[3].sp());
            assert(q.lo_x() == ax - 1);
            assert(q.lo_y() == ay);
            assert(at_anchor(q.shape, q.orientation, ax - 1, ay)[0] == (ax - 1, ay));
            assert(at_anchor(q.shape, q.orientation, ax - 1, ay)[1] == (ax, ay));
            assert(at_anchor(q.shape, q.orientation, ax - 1, ay)[2] == (ax, ay + 1));
            assert(at_anchor(q.shape, q.orientation, ax - 1, ay)[3] == (ax + 1, ay + 1));
            assert(q.pts() =~= at_anchor(q.shape, q.orientation, ax - 1, ay));
        },
        Orientation::Three => {
            assert(p.pts()[0] == p.points@[0].sp());
            assert(p.pts()[1] == p.points@[1].sp());
            assert(p.pts()[2] == p.points@[2].sp());
            assert(p.pts()[3] == p.points@[3].sp());
            assert(at_anchor(p.shape, p.orientation, ax, ay)[0] == (ax, ay));
            assert(at_anchor(p.shape, p.orientation, ax, ay)[1] == (ax + 1, ay));
            assert(at_anchor(p.shape, p.orientation, ax, ay)[2] == (ax + 1, ay + 1));
            assert(at_anchor(p.shape, p.orientation, ax, ay)[3] == (ax + 2, ay + 1));
            assert(p.pts()[0] == (ax, ay));
            assert(p.pts()[1] == (ax + 1, ay));
            assert(p.pts()[2] == (ax + 1, ay + 1));
            assert(p.pts()[3] == (ax + 2, ay + 1));
            assert(p.hi_x() == ax + 2);
            assert(p.hi_y() == ay + 1);
            assert(ccw_offset(p.shape, p.orientation, ax, ay) is Some);
            assert(ccw_offset(p.shape, p.orientation, ax, ay) == Some((ax + 1, ay)));
            let images = ccw_images(p, ax + 1, ay);
            assert(images.len() == 4);
            assert(images[0] == (ax + 2, ay));
            assert(images[1] == (ax + 2, ay + 1));
            assert(images[2] == (ax + 1, ay + 1));
            assert(images[3] == (ax + 1, ay + 2));
            lemma_quad_members(images);
            assert forall|pt: (int, int)| q.pts().contains(pt) <==> (pt == (ax + 2, ay) || pt == (ax + 2, ay + 1) || pt == (ax + 1, ay + 1) || pt == (ax + 1, ay + 2)) by {}
            lemma_step_case(q, (ax + 2, ay), (ax + 2, ay + 1), (ax + 1, ay + 1), (ax + 1, ay + 2), (ax + 2, ay), (ax + 1, ay + 1), (ax + 2, ay + 1), (ax + 1, ay + 2));
            assert(q.pts() == seq![(ax + 2, ay), (ax + 1, ay + 1), (ax + 2, ay + 1), (ax + 1, ay + 2)]);
            assert(q.pts()[0] == q.points@[0].sp());
            assert(q.pts()[1] == q.points@[1].sp());
            assert(q.pts()[2] == q.points@[2].sp());
            assert(q.pts()[3] == q.points@[3].sp());
            assert(q.lo_x() == ax + 1);
            assert(q.lo_y() == ay);
            assert(at_anchor(q.shape, q.orientation, ax + 1, ay)[0] == (ax + 2, ay));
            assert(at_anchor(q.shape, q.orientation, ax + 1, ay)[1] == (ax + 1, ay + 1));
            assert(at_anchor(q.shape, q.orientation, ax + 1, ay)[2] == (ax + 2, ay + 1));
            assert(at_anchor(q.shape, q.orientation, ax + 1, ay)[3] == (ax + 1, ay + 2));
            assert(q.pts() =~= at_anchor(q.shape, q.orientation, ax + 1, ay));
        },
        Orientation::Four => {
            assert(p.pts()[0] == p.points@[0].sp());
            assert(p.pts()[1] == p.points@[1].sp());
            assert(p.pts()[2] == p.points@[2].sp());
            assert(p.pts()[3] == p.points@[3].sp());
            assert(at_anchor(p.shape, p.orientation, ax, ay)[0] == (ax + 1, ay));
            assert(at_anchor(p.shape, p.orientation, ax, ay)[1] == (ax, ay + 1));
            assert(at_anchor(p.shape, p.orientation, ax, ay)[2] == (ax + 1, ay + 1));
            assert(at_anchor(p.shape, p.orientation, ax, ay)[3] == (ax, ay + 2));
            assert(p.pts()[0] == (ax + 1, ay));
            assert(p.pts()[1] == (ax, ay + 1));
            assert(p.pts()[2] == (ax + 1, ay + 1));
            assert(p.pts()[3] == (ax, ay + 2));
            assert(p.hi_x() == ax + 1);
            assert(p.hi_y() == ay + 2);
            assert(ccw_offset(p.shape, p.orientation, ax, ay) is Some);
            assert(ccw_offset(p.shape, p.orientation, ax, ay) == Some((ax - 1, ay)));
            let images = ccw_images(p, ax - 1, ay);
            assert(images.len() == 4);
            assert(images[0] == (ax + 1, ay + 1));
            assert(images[1] == (ax, ay));
            assert(images[2] == (ax, ay + 1));
            assert(images[3] == (ax - 1, ay));
            lemma_quad_members(images);
            assert forall|pt: (int, int)| q.pts().contains(pt) <==> (pt == (ax + 1, ay + 1) || pt == (ax, ay) || pt == (ax, ay + 1) || pt == (ax - 1, ay)) by {}
            lemma_step_case(q, (ax + 1, ay + 1), (ax, ay), (ax, ay + 1), (ax - 1, ay), (ax - 1, ay), (ax, ay), (ax, ay + 1), (ax + 1, ay + 1));
            assert(q.pts() == seq![(ax - 1, ay), (ax, ay), (ax, ay + 1), (ax + 1, ay + 1)]);
            assert(q.pts()[0] == q.points@[0].sp());
            assert(q.pts()[1] == q.points@[1].sp());
            assert(q.pts()[2] == q.points@[2].sp());
            assert(q.pts()[3] == q.points@[3].sp());
            assert(q.lo_x() == ax - 1);
            assert(q.lo_y() == ay);
            assert(at_anchor(q.shape, q.orientation, ax - 1, ay)[0] == (ax - 1, ay));
            assert(at_anchor(q.shape, q.orientation, ax - 1, ay)[1] == (ax, ay));
            assert(at_anchor(q.shape, q.orientation, ax - 1, ay)[2] == (ax, ay + 1));
            assert(at_anchor(q.shape, q.orientation, ax - 1, ay)[3] == (ax + 1, ay + 1));
            assert(q.pts() =~= at_anchor(q.shape, q.orientation, ax - 1, ay));
        },
    }
}

#[verifier::rlimit(80)]
#[verifier::spinoff_prover]
proof fn lemma_ccw_step_hero(p: Piece, q: Piece)
    requires
        p.shape == Shape::Hero,
        wf_layout(p),
        is_ccw_candidate(p, q),
    ensures
        q.shape == p.shape,
        q.orientation == prev_orientation(p.orientation),
        wf_layout(q),
        q.lo_x() == p.lo_x() + ccw_anchor_step(p.shape, p.orientation).0,
        q.lo_y() == p.lo_y() + ccw_anchor_step(p.shape, p.orientation).1,
{
    let ax = p.lo_x();
    let ay = p.lo_y();
    match p.orientation {
        Orientation::One => {
            assert(p.pts()[0] == p.points@[0].sp());
            assert(p.pts()[1] == p.points@[1].sp());
            assert(p.pts()[2] == p.points@[2].sp());
            assert(p.pts()[3] == p.points@[3].sp());
            assert(at_anchor(p.shape, p.orientation, ax, ay)[0] == (ax, ay));
            assert(at_anchor(p.shape, p.orientation, ax, ay)[1] == (ax + 1, ay));
            assert(at_anchor(p.shape, p.orientation, ax, ay)[2] == (ax + 2, ay));
            assert(at_anchor(p.shape, p.orientation, ax, ay)[3] == (ax + 3, ay));
            assert(p.pts()[0] == (ax, ay));
            assert(p.pts()[1] == (ax + 1, ay));
            assert(p.pts()[2] == (ax + 2, ay));
            assert(p.pts()[3] == (ax + 3, ay));
            assert(p.hi_x() == ax + 3);
            assert(p.hi_y() == ay);
            assert(ccw_offset(p.shape, p.orientation, ax, ay) is Some);
            assert(ccw_offset(p.shape, p.orientation, ax, ay) == Some((ax + 2, ay - 1)));
            let images = ccw_images(p, ax + 2, ay - 1);
            assert(images.len() == 4);
            assert(images[0] == (ax + 2, ay - 1));
            assert(images[1] == (ax + 2, ay));
            assert(images[2] == (ax + 2, ay + 1));
            assert(images[3] == (ax + 2, ay + 2));
            lemma_quad_members(images);
            assert forall|pt: (int, int)| q.pts().contains(pt) <==> (pt == (ax + 2, ay - 1) || pt == (ax + 2, ay) || pt == (ax + 2, ay + 1) || pt == (ax + 2, ay + 2)) by {}
            lemma_step_case(q, (ax + 2, ay - 1), (ax + 2, ay), (ax + 2, ay + 1), (ax + 2, ay + 2), (ax + 2, ay - 1), (ax + 2, ay), (ax + 2, ay + 1), (ax + 2, ay + 2));
            assert(q.pts() == seq![(ax + 2, ay - 1), (ax + 2, ay), (ax + 2, ay + 1), (ax + 2, ay + 2)]);
            assert(q.pts()[0] == q.points@[0].sp());
            assert(q.pts()[1] == q.points@[1].sp());
            assert(q.pts()[2] == q.points@[2].sp());
            assert(q.pts()[3] == q.points@[3].sp());
            assert(q.lo_x() == ax + 2);
            assert(q.lo_y() == ay - 1);
            assert(at_anchor(q.shape, q.orientation, ax + 2, ay - 1)[0] == (ax + 2, ay - 1));
            assert(at_anchor(q.shape, q.orientation, ax + 2, ay - 1)[1] == (ax + 2, ay));
            assert(at_anchor(q.shape, q.orientation, ax + 2, ay - 1)[2] == (ax + 2, ay + 1));
            assert(at_anchor(q.shape, q.orientation, ax + 2, ay - 1)[3] == (ax + 2, ay + 2));
            assert(q.pts() =~= at_anchor(q.shape, q.orientation, ax + 2, ay - 1));
        },
        Orientation::Two => {
            assert(p.pts()[0] == p.points@[0].sp());
            assert(p.pts()[1] == p.points@[1].sp());
            assert(p.pts()[2] == p.points@[2].sp());
            assert(p.pts()[3] == p.points@[3].sp());
            assert(at_anchor(p.shape, p.orientation, ax, ay)[0] == (ax, ay));
            assert(at_anchor(p.shape, p.orientation, ax, ay)[1] == (ax, ay + 1));
            assert(at_anchor(p.shape, p.orientation, ax, ay)[2] == (ax, ay + 2));
            assert(at_anchor(p.shape, p.orientation, ax, ay)[3] == (ax, ay + 3));
            assert(p.pts()[0] == (ax, ay));
            assert(p.pts()[1] == (ax, ay + 1));
            assert(p.pts()[2] == (ax, ay + 2));
            assert(p.pts()[3] == (ax, ay + 3));
            assert(p.hi_x() == ax);
            assert(p.hi_y() == ay + 3);
            assert(ccw_offset(p.shape, p.orientation, ax, ay) is Some);
            assert(ccw_offset(p.shape, p.orientation, ax, ay) == Some((ax - 2, ay + 1)));
            let images = ccw_images(p, ax - 2, ay + 1);
            assert(images.len() == 4);
            assert(images[0] == (ax + 1, ay + 1));
            assert(images[1] == (ax, ay + 1));
            assert(images[2] == (ax - 1, ay + 1));
            assert(images[3] == (ax - 2, ay + 1));
            lemma_quad_members(images);
            assert forall|pt: (int, int)| q.pts().contains(pt) <==> (pt == (ax + 1, ay + 1) || pt == (ax, ay + 1) || pt == (ax - 1, ay + 1) || pt == (ax - 2, ay + 1)) by {}
            lemma_step_case(q, (ax + 1, ay + 1), (ax, ay + 1), (ax - 1, ay + 1), (ax - 2, ay + 1), (ax - 2, ay + 1), (ax - 1, ay + 1), (ax, ay + 1), (ax + 1, ay + 1));
            assert(q.pts() == seq![(ax - 2, ay + 1), (ax - 1, ay + 1), (ax, ay + 1), (ax + 1, ay + 1)]);
            assert(q.pts()[0] == q.points@[0].sp());
            assert(q.pts()[1] == q.points@[1].sp());
            assert(q.pts()[2] == q.points@[2].sp());
            assert(q.pts()[3] == q.points@[3].sp());
            assert(q.lo_x() == ax - 2);
            assert(q.lo_y() == ay + 1);
            assert(at_anchor(q.shape, q.orientation, ax - 2, ay + 1)[0] == (ax - 2, ay + 1));
            assert(at_anchor(q.shape, q.orientation, ax - 2, ay + 1)[1] == (ax - 1, ay + 1));
            assert(at_anchor(q.shape, q.orientation, ax - 2, ay + 1)[2] == (ax, ay + 1));
            assert(at_anchor(q.shape, q.orientation, ax - 2, ay + 1)[3] == (ax + 1, ay + 1));
            assert(q.pts() =~= at_anchor(q.shape, q.orientation, ax - 2, ay + 1));
        },
        Orientation::Three => {
            assert(p.pts()[0] == p.points@[0].sp());
            assert(p.pts()[1] == p.points@[1].sp());
            assert(p.pts()[2] == p.points@[2].sp());
            assert(p.pts()[3] == p.points@[3].sp());
            assert(at_anchor(p.shape, p.orientation, ax, ay)[0] == (ax, ay));
            assert(at_anchor(p.shape, p.orientation, ax, ay)[1] == (ax + 1, ay));
            assert(at_anchor(p.shape, p.orientation, ax, ay)[2] == (ax + 2, ay));
            assert(at_anchor(p.shape, p.orientation, ax, ay)[3] == (ax + 3, ay));
            assert(p.pts()[0] == (ax, ay));
            assert(p.pts()[1] == (ax + 1, ay));
            assert(p.pts()[2] == (ax + 2, ay));
            assert(p.pts()[3] == (ax + 3, ay));
            assert(p.hi_x() == ax + 3);
            assert(p.hi_y() == ay);
            assert(ccw_offset(p.shape, p.orientation, ax, ay) is Some);
            assert(ccw_offset(p.shape, p.orientation, ax, ay) == Some((ax + 2, ay - 1)));
            let images = ccw_images(p, ax + 2, ay - 1);
            assert(images.len() == 4);
            assert(images[0] == (ax + 2, ay - 1));
            assert(images[1] == (ax + 2, ay));
            assert(images[2] == (ax + 2, ay + 1));
            assert(images[3] == (ax + 2, ay + 2));
            lemma_quad_members(images);
            assert forall|pt: (int, int)| q.pts().contains(pt) <==> (pt == (ax + 2, ay - 1) || pt == (ax + 2, ay) || pt == (ax + 2, ay + 1) || pt == (ax + 2, ay + 2)) by {}
            lemma_step_case(q, (ax + 2, ay - 1), (ax + 2, ay), (ax + 2, ay + 1), (ax + 2, ay + 2), (ax + 2, ay - 1), (ax + 2, ay), (ax + 2, ay + 1), (ax + 2, ay + 2));
            assert(q.pts() == seq![(ax + 2, ay - 1), (ax + 2, ay), (ax + 2, ay + 1), (ax + 2, ay + 2)]);
            assert(q.pts()[0] == q.points@[0].sp());
            assert(q.pts()[1] == q.points@[1].sp());
            assert(q.pts()[2] == q.points@[2].sp());
            assert(q.pts()[3] == q.points@[3].sp());
            assert(q.lo_x() == ax + 2);
            assert(q.lo_y() == ay - 1);
            assert(at_anchor(q.shape, q.orientation, ax + 2, ay - 1)[0] == (ax + 2, ay - 1));
            assert(at_anchor(q.shape, q.orientation, ax + 2, ay - 1)[1] == (ax + 2, ay));
            assert(at_anchor(q.shape, q.orientation, ax + 2, ay - 1)[2] == (ax + 2, ay + 1));
            assert(at_anchor(q.shape, q.orientation, ax + 2, ay - 1)[3] == (ax + 2, ay + 2));
            assert(q.pts() =~= at_anchor(q.shape, q.orientation, ax + 2, ay - 1));
        },
        Orientation::Four => {
            assert(p.pts()[0] == p.points@[0].sp());
            assert(p.pts()[1] == p.points@[1].sp());
            assert(p.pts()[2] == p.points@[2].sp());
            assert(p.pts()[3] == p.points@[3].sp());
            assert(at_anchor(p.shape, p.orientation, ax, ay)[0] == (ax, ay));
            assert(at_anchor(p.shape, p.orientation, ax, ay)[1] == (ax, ay + 1));
            assert(at_anchor(p.shape, p.orientation, ax, ay)[2] == (ax, ay + 2));
            assert(at_anchor(p.shape, p.orientation, ax, ay)[3] == (ax, ay + 3));
            assert(p.pts()[0] == (ax, ay));
            assert(p.pts()[1] == (ax, ay + 1));
            assert(p.pts()[2] == (ax, ay + 2));
            assert(p.pts()[3] == (ax, ay + 3));
            assert(p.hi_x() == ax);
            assert(p.hi_y() == ay + 3);
            assert(ccw_offset(p.shape, p.orientation, ax, ay) is Some);
            assert(ccw_offset(p.shape, p.orientation, ax, ay) == Some((ax - 2, ay + 1)));
            let images = ccw_images(p, ax - 2, ay + 1);
            assert(images.len() == 4);
            assert(images[0] == (ax + 1, ay + 1));
            assert(images[1] == (ax, ay + 1));
            assert(images[2] == (ax - 1, ay + 1));
            assert(images[3] == (ax - 2, ay + 1));
            lemma_quad_members(images);
            assert forall|pt: (int, int)| q.pts().contains(pt) <==> (pt == (ax + 1, ay + 1) || pt == (ax, ay + 1) || pt == (ax - 1, ay + 1) || pt == (ax - 2, ay + 1)) by {}
            lemma_step_case(q, (ax + 1, ay + 1), (ax, ay + 1), (ax - 1, ay + 1), (ax - 2, ay + 1), (ax - 2, ay + 1), (ax - 1, ay + 1), (ax, ay + 1), (ax + 1, ay + 1));
            assert(q.pts() == seq![(ax - 2, ay + 1), (ax - 1, ay + 1), (ax, ay + 1), (ax + 1, ay + 1)]);
            assert(q.pts()[0] == q.points@[0].sp());
            assert(q.pts()[1] == q.points@[1].sp());
            assert(q.pts()[2] == q.points@[2].sp());
            assert(q.pts()[3] == q.points@[3].sp());
            assert(q.lo_x() == ax - 2);
            assert(q.lo_y() == ay + 1);
            assert(at_anchor(q.shape, q.orientation, ax - 2, ay + 1)[0] == (ax - 2, ay + 1));
            assert(at_anchor(q.shape, q.orientation, ax - 2, ay + 1)[1] == (ax - 1, ay + 1));
            assert(at_anchor(q.shape, q.orientation, ax - 2, ay + 1)[2] == (ax, ay + 1));
            assert(at_anchor(q.shape, q.orientation, ax - 2, ay + 1)[3] == (ax + 1, ay + 1));
            assert(q.pts() =~= at_anchor(q.shape, q.orientation, ax - 2, ay + 1));
        },
    }
}

#[verifier::rlimit(80)]
#[verifier::spinoff_prover]
proof fn lemma_ccw_step_teewee(p: Piece, q: Piece)
    requires
        p.shape == Shape::Teewee,
        wf_layout(p),
        is_ccw_candidate(p, q),
    ensures
        q.shape == p.shape,
        q.orientation == prev_orientation(p.orientation),
        wf_layout(q),
        q.lo_x() == p.lo_x() + ccw_anchor_step(p.shape, p.orientation).0,
        q.lo_y() == p.lo_y() + ccw_anchor_step(p.shape, p.orientation).1,
{
    let ax = p.lo_x();
    let ay = p.lo_y();
    match p.orientation {
        Orientation::One => {
            assert(p.pts()[0] == p.points@[0].sp());
            assert(p.pts()[1] == p.points@[1].sp());
            assert(p.pts()[2] == p.points@[2].sp());
            assert(p.pts()[3] == p.points@[3].sp());
            assert(at_anchor(p.shape, p.orientation, ax, ay)[0] == (ax + 1, ay));
            assert(at_anchor(p.shape, p.orientation, ax, ay)[1] == (ax, ay + 1));
            assert(at_anchor(p.shape, p.orientation, ax, ay)[2] == (ax + 1, ay + 1));
            assert(at_anchor(p.shape, p.orientation, ax, ay)[3] == (ax + 2, ay + 1));
            assert(p.pts()[0] == (ax + 1, ay));
            assert(p.pts()[1] == (ax, ay + 1));
            assert(p.pts()[2] == (ax + 1, ay + 1));
            assert(p.pts()[3] == (ax + 2, ay + 1));
            assert(p.hi_x() == ax + 2);
            assert(p.hi_y() == ay + 1);
            assert(ccw_offset(p.shape, p.orientation, ax, ay) is Some);
            assert(ccw_offset(p.shape, p.orientation, ax, ay) == Some((ax + 1, ay)));
            let images = ccw_images(p, ax + 1, ay);
            assert(images.len() == 4);
            assert(images[0] == (ax + 2, ay + 1));
            assert(images[1] == (ax + 1, ay));
            assert(images[2] == (ax + 1, ay + 1));
            assert(images[3] == (ax + 1, ay + 2));
            lemma_quad_members(images);
            assert forall|pt: (int, int)| q.pts().contains(pt) <==> (pt == (ax + 2, ay + 1) || pt == (ax + 1, ay) || pt == (ax + 1, ay + 1) || pt == (ax + 1, ay + 2)) by {}
            lemma_step_case(q, (ax + 2, ay + 1), (ax + 1, ay), (ax + 1, ay + 1), (ax + 1, ay + 2), (ax + 1, ay), (ax + 1, ay + 1), (ax + 2, ay + 1), (ax + 1, ay + 2));
            assert(q.pts() == seq![(ax + 1, ay), (ax + 1, ay + 1), (ax + 2, ay + 1), (ax + 1, ay + 2)]);
            assert(q.pts()[0] == q.points@[0].sp());
            assert(q.pts()[1] == q.points@[1].sp());
            assert(q.pts()[2] == q.points@[2].sp());
            assert(q.pts()[3] == q.points@[3].sp());
            assert(q.lo_x() == ax + 1);
            assert(q.lo_y() == ay);
            assert(at_anchor(q.shape, q.orientation, ax + 1, ay)[0] == (ax + 1, ay));
            assert(at_anchor(q.shape, q.orientation, ax + 1, ay)[1] == (ax + 1, ay + 1));
            assert(at_anchor(q.shape, q.orientation, ax + 1, ay)[2] == (ax + 2, ay + 1));
            assert(at_anchor(q.shape, q.orientation, ax + 1, ay)[3] == (ax + 1, ay + 2));
            assert(q.pts() =~= at_anchor(q.shape, q.orientation, ax + 1, ay));
        },
        Orientation::Two => {
            assert(p.pts()[0] == p.points@[0].sp());
            assert(p.pts()[1] == p.points@[1].sp());
            assert(p.pts()[2] == p.points@[2].sp());
            assert(p.pts()[3] == p.points@[3].sp());
            assert(at_anchor(p.shape, p.orientation, ax, ay)[0] == (ax + 1, ay));
            assert(at_anchor(p.shape, p.orientation, ax, ay)[1] == (ax, ay + 1));
            assert(at_anchor(p.shape, p.orientation, ax, ay)[2] == (ax + 1, ay + 1));
            assert(at_anchor(p.shape, p.orientation, ax, ay)[3] == (ax + 1, ay + 2));
            assert(p.pts()[0] == (ax + 1, ay));
            assert(p.pts()[1] == (ax, ay + 1));
            assert(p.pts()[2] == (ax + 1, ay + 1));
            assert(p.pts()[3] == (ax + 1, ay + 2));
            assert(p.hi_x() == ax + 1);
            assert(p.hi_y() == ay + 2);
            assert(ccw_offset(p.shape, p.orientation, ax, ay) is Some);
            assert(ccw_offset(p.shape, p.orientation, ax, ay) == Some((ax, ay)));
            let images = ccw_images(p, ax, ay);
            assert(images.len() == 4);
            assert(images[0] == (ax + 2, ay + 1));
            assert(images[1] == (ax + 1, ay));
            assert(images[2] == (ax + 1, ay + 1));
            assert(images[3] == (ax, ay + 1));
            lemma_quad_members(images);
            assert forall|pt: (int, int)| q.pts().contains(pt) <==> (pt == (ax + 2, ay + 1) || pt == (ax + 1, ay) || pt == (ax + 1, ay + 1) || pt == (ax, ay + 1)) by {}
            lemma_step_case(q, (ax + 2, ay + 1), (ax + 1, ay), (ax + 1, ay + 1), (ax, ay + 1), (ax + 1, ay), (ax, ay + 1), (ax + 1, ay + 1), (ax + 2, ay + 1));
            assert(q.pts() == seq![(ax + 1, ay), (ax, ay + 1), (ax + 1, ay + 1), (ax + 2, ay + 1)]);
            assert(q.pts()[0] == q.points@[0].sp());
            assert(q.pts()[1] == q.points@[1].sp());
            assert(q.pts()[2] == q.points@[2].sp());
            assert(q.pts()[3] == q.points@[3].sp());
            assert(q.lo_x() == ax);
            assert(q.lo_y() == ay);
            assert(at_anchor(q.shape, q.orientation, ax, ay)[0] == (ax + 1, ay));
            assert(at_anchor(q.shape, q.orientation, ax, ay)[1] == (ax, ay + 1));
            assert(at_anchor(q.shape, q.orientation, ax, ay)[2] == (ax + 1, ay + 1));
            assert(at_anchor(q.shape, q.orientation, ax, ay)[3] == (ax + 2, ay + 1));
            assert(q.pts() =~= at_anchor(q.shape, q.orientation, ax, ay));
        },
        Orientation::Three => {
            assert(p.pts()[0] == p.points@[0].sp());
            assert(p.pts()[1] == p.points@[1].sp());
            assert(p.pts()[2] == p.points@[2].sp());
            assert(p.pts()[3] == p.points@[3].sp());
            assert(at_anchor(p.shape, p.orientation, ax, ay)[0] == (ax, ay));
            assert(at_anchor(p.shape, p.orientation, ax, ay)[1] == (ax + 1, ay));
            assert(at_anchor(p.shape, p.orientation, ax, ay)[2] == (ax + 2, ay));
            assert(at_anchor(p.shape, p.orientation, ax, ay)[3] == (ax + 1, ay + 1));
            assert(p.pts()[0] == (ax, ay));
            assert(p.pts()[1] == (ax + 1, ay));
            assert(p.pts()[2] == (ax + 2, ay));
            assert(p.pts()[3] == (ax + 1, ay + 1));
            assert(p.hi_x() == ax + 2);
            assert(p.hi_y() == ay + 1);
            assert(ccw_offset(p.shape, p.orientation, ax, ay) is Some);
            assert(ccw_offset(p.shape, p.orientation, ax, ay) == Some((ax, ay - 1)));
            let images = ccw_images(p, ax, ay - 1);
            assert(images.len() == 4);
            assert(images[0] == (ax + 1, ay - 1));
            assert(images[1] == (ax + 1, ay));
            assert(images[2] == (ax + 1, ay + 1));
            assert(images[3] == (ax, ay));
            lemma_quad_members(images);
            assert forall|pt: (int, int)| q.pts().contains(pt) <==> (pt == (ax + 1, ay - 1) || pt == (ax + 1, ay) || pt == (ax + 1, ay + 1) || pt == (ax, ay)) by {}
            lemma_step_case(q, (ax + 1, ay - 1), (ax + 1, ay), (ax + 1, ay + 1), (ax, ay), (ax + 1, ay - 1), (ax, ay), (ax + 1, ay), (ax + 1, ay + 1));
            assert(q.pts() == seq![(ax + 1, ay - 1), (ax, ay), (ax + 1, ay), (ax + 1, ay + 1)]);
            assert(q.pts()[0] == q.points@[0].sp());
            assert(q.pts()[1] == q.points@[1].sp());
            assert(q.pts()[2] == q.points@[2].sp());
            assert(q.pts()[3] == q.points@[3].sp());
            assert(q.lo_x() == ax);
            assert(q.lo_y() == ay - 1);
            assert(at_anchor(q.shape, q.orientation, ax, ay - 1)[0] == (ax + 1, ay - 1));
            assert(at_anchor(q.shape, q.orientation, ax, ay - 1)[1] == (ax, ay));
            assert(at_anchor(q.shape, q.orientation, ax, ay - 1)[2] == (ax + 1, ay));
            assert(at_anchor(q.shape, q.orientation, ax, ay - 1)[3] == (ax + 1, ay + 1));
            assert(q.pts() =~= at_anchor(q.shape, q.orientation, ax, ay - 1));
        },
        Orientation::Four => {
            assert(p.pts()[0] == p.points@[0].sp());
            assert(p.pts()[1] == p.points@[1].sp());
            assert(p.pts()[2] == p.points@[2].sp());
            assert(p.pts()[3] == p.points@[3].sp());
            assert(at_anchor(p.shape, p.orientation, ax, ay)[0] == (ax, ay));
            assert(at_anchor(p.shape, p.orientation, ax, ay)[1] == (ax, ay + 1));
            assert(at_anchor(p.shape, p.orientation, ax, ay)[2] == (ax + 1, ay + 1));
            assert(at_anchor(p.shape, p.orientation, ax, ay)[3] == (ax, ay + 2));
            assert(p.pts()[0] == (ax, ay));
            assert(p.pts()[1] == (ax, ay + 1));
            assert(p.pts()[2] == (ax + 1, ay + 1));
            assert(p.pts()[3] == (ax, ay + 2));
            assert(p.hi_x() == ax + 1);
            assert(p.hi_y() == ay + 2);
            assert(ccw_offset(p.shape, p.orientation, ax, ay) is Some);
            assert(ccw_offset(p.shape, p.orientation, ax, ay) == Some((ax - 1, ay + 1)));
            let images = ccw_images(p, ax - 1, ay + 1);
            assert(images.len() == 4);
            assert(images[0] == (ax + 1, ay + 1));
            assert(images[1] == (ax, ay + 1));
            assert(images[2] == (ax, ay + 2));
            assert(images[3] == (ax - 1, ay + 1));
            lemma_quad_members(images);
            assert forall|pt: (int, int)| q.pts().contains(pt) <==> (pt == (ax + 1, ay + 1) || pt == (ax, ay + 1) || pt == (ax, ay + 2) || pt == (ax - 1, ay + 1)) by {}
            lemma_step_case(q, (ax + 1, ay + 1), (ax, ay + 1), (ax, ay + 2), (ax - 1, ay + 1), (ax - 1, ay + 1), (ax, ay + 1), (ax + 1, ay + 1), (ax, ay + 2));
            assert(q.pts() == seq![(ax - 1, ay + 1), (ax, ay + 1), (ax + 1, ay + 1), (ax, ay + 2)]);
            assert(q.pts()[0] == q.points@[0].sp());
            assert(q.pts()[1] == q.points@[1].sp());
            assert(q.pts()[2] == q.points@[2].sp());
            assert(q.pts()[3] == q.points@[3].sp());
            assert(q.lo_x() == ax - 1);
            assert(q.lo_y() == ay + 1);
            assert(at_anchor(q.shape, q.orientation, ax - 1, ay + 1)[0] == (ax - 1, ay + 1));
            assert(at_anchor(q.shape, q.orientation, ax - 1, ay + 1)[1] == (ax, ay + 1));
            assert(at_anchor(q.shape, q.orientation, ax - 1, ay + 1)[2] == (ax + 1, ay + 1));
            assert(at_anchor(q.shape, q.orientation, ax - 1, ay + 1)[3] == (ax, ay + 2));
            assert(q.pts() =~= at_anchor(q.shape, q.orientation, ax - 1, ay + 1));
        },
    }
}

#[verifier::rlimit(80)]
#[verifier::spinoff_prover]
proof fn lemma_ccw_step_smashboy(p: Piece, q: Piece)
    requires
        p.shape == Shape::Smashboy,
        wf_layout(p),
        is_ccw_candidate(p, q),
    ensures
        q.shape == p.shape,
        q.orientation == prev_orientation(p.orientation),
        wf_layout(q),
        q.lo_x() == p.lo_x() + ccw_anchor_step(p.shape, p.orientation).0,
        q.lo_y() == p.lo_y() + ccw_anchor_step(p.shape, p.orientation).1,
{
    let ax = p.lo_x();
    let ay = p.lo_y();
    match p.orientation {
        Orientation::One => {
            assert(p.pts()[0] == p.points@[0].sp());
            assert(p.pts()[1] == p.points@[1].sp());
            assert(p.pts()[2] == p.points@[2].sp());
            assert(p.pts()[3] == p.points@[3].sp());
            assert(at_anchor(p.shape, p.orientation, ax, ay)[0] == (ax, ay));
            assert(at_anchor(p.shape, p.orientation, ax, ay)[1] == (ax + 1, ay));
            assert(at_anchor(p.shape, p.orientation, ax, ay)[2] == (ax, ay + 1));
            assert(at_anchor(p.shape, p.orientation, ax, ay)[3] == (ax + 1, ay + 1));
            assert(p.pts()[0] == (ax, ay));
            assert(p.pts()[1] == (ax + 1, ay));
            assert(p.pts()[2] == (ax, ay + 1));
            assert(p.pts()[3] == (ax + 1, ay + 1));
            assert(p.hi_x() == ax + 1);
            assert(p.hi_y() == ay + 1);
            assert(ccw_offset(p.shape, p.orientation, ax, ay) is Some);
            assert(ccw_offset(p.shape, p.orientation, ax, ay) == Some((ax, ay)));
            let images = ccw_images(p, ax, ay);
            assert(images.len() == 4);
            assert(images[0] == (ax + 1, ay));
            assert(images[1] == (ax + 1, ay + 1));
            assert(images[2] == (ax, ay));
            assert(images[3] == (ax, ay + 1));
            lemma_quad_members(images);
            assert forall|pt: (int, int)| q.pts().contains(pt) <==> (pt == (ax + 1, ay) || pt == (ax + 1, ay + 1) || pt == (ax, ay) || pt == (ax, ay + 1)) by {}
            lemma_step_case(q, (ax + 1, ay), (ax + 1, ay + 1), (ax, ay), (ax, ay + 1), (ax, ay), (ax + 1, ay), (ax, ay + 1), (ax + 1, ay + 1));
            assert(q.pts() == seq![(ax, ay), (ax + 1, ay), (ax, ay + 1), (ax + 1, ay + 1)]);
            assert(q.pts()[0] == q.points@[0].sp());
            assert(q.pts()[1] == q.points@[1].sp());
            assert(q.pts()[2] == q.points@[2].sp());
            assert(q.pts()[3] == q.points@[3].sp());
            assert(q.lo_x() == ax);
            assert(q.lo_y() == ay);
            assert(at_anchor(q.shape, q.orientation, ax, ay)[0] == (ax, ay));
            assert(at_anchor(q.shape, q.orientation, ax, ay)[1] == (ax + 1, ay));
            assert(at_anchor(q.shape, q.orientation, ax, ay)[2] == (ax, ay + 1));
            assert(at_anchor(q.shape, q.orientation, ax, ay)[3] == (ax + 1, ay + 1));
            assert(q.pts() =~= at_anchor(q.shape, q.orientation, ax, ay));
        },
        Orientation::Two => {
            assert(p.pts()[0] == p.points@[0].sp());
            assert(p.pts()[1] == p.points@[1].sp());
            assert(p.pts()[2] == p.points@[2].sp());
            assert(p.pts()[3] == p.points@[3].sp());
            assert(at_anchor(p.shape, p.orientation, ax, ay)[0] == (ax, ay));
            assert(at_anchor(p.shape, p.orientation, ax, ay)[1] == (ax + 1, ay));
            assert(at_anchor(p.shape, p.orientation, ax, ay)[2] == (ax, ay + 1));
            assert(at_anchor(p.shape, p.orientation, ax, ay)[3] == (ax + 1, ay + 1));
            assert(p.pts()[0] == (ax, ay));
            assert(p.pts()[1] == (ax + 1, ay));
            assert(p.pts()[2] == (ax, ay + 1));
            assert(p.pts()[3] == (ax + 1, ay + 1));
            assert(p.hi_x() == ax + 1);
            assert(p.hi_y() == ay + 1);
            assert(ccw_offset(p.shape, p.orientation, ax, ay) is Some);
            assert(ccw_offset(p.shape, p.orientation, ax, ay) == Some((ax, ay)));
            let images = ccw_images(p, ax, ay);
            assert(images.len() == 4);
            assert(images[0] == (ax + 1, ay));
            assert(images[1] == (ax + 1, ay + 1));
            assert(images[2] == (ax, ay));
            assert(images[3] == (ax, ay + 1));
            lemma_quad_members(images);
            assert forall|pt: (int, int)| q.pts().contains(pt) <==> (pt == (ax + 1, ay) || pt == (ax + 1, ay + 1) || pt == (ax, ay) || pt == (ax, ay + 1)) by {}
            lemma_step_case(q, (ax + 1, ay), (ax + 1, ay + 1), (ax, ay), (ax, ay + 1), (ax, ay), (ax + 1, ay), (ax, ay + 1), (ax + 1, ay + 1));
            assert(q.pts() == seq![(ax, ay), (ax + 1, ay), (ax, ay + 1), (ax + 1, ay + 1)]);
            assert(q.pts()[0] == q.points@[0].sp());
            assert(q.pts()[1] == q.points@[1].sp());
            assert(q.pts()[2] == q.points@[2].sp());
            assert(q.pts()[3] == q.points@[3].sp());
            assert(q.lo_x() == ax);
            assert(q.lo_y() == ay);
            assert(at_anchor(q.shape, q.orientation, ax, ay)[0] == (ax, ay));
            assert(at_anchor(q.shape, q.orientation, ax, ay)[1] == (ax + 1, ay));
            assert(at_anchor(q.shape, q.orientation, ax, ay)[2] == (ax, ay + 1));
            assert(at_anchor(q.shape, q.orientation, ax, ay)[3] == (ax + 1, ay + 1));
            assert(q.pts() =~= at_anchor(q.shape, q.orientation, ax, ay));
        },
        Orientation::Three => {
            assert(p.pts()[0] == p.points@[0].sp());
            assert(p.pts()[1] == p.points@[1].sp());
            assert(p.pts()[2] == p.points@[2].sp());
            assert(p.pts()[3] == p.points@[3].sp());
            assert(at_anchor(p.shape, p.orientation, ax, ay)[0] == (ax, ay));
            assert(at_anchor(p.shape, p.orientation, ax, ay)[1] == (ax + 1, ay));
            assert(at_anchor(p.shape, p.orientation, ax, ay)[2] == (ax, ay + 1));
            assert(at_anchor(p.shape, p.orientation, ax, ay)[3] == (ax + 1, ay + 1));
            assert(p.pts()[0] == (ax, ay));
            assert(p.pts()[1] == (ax + 1, ay));
            assert(p.pts()[2] == (ax, ay + 1));
            assert(p.pts()[3] == (ax + 1, ay + 1));
            assert(p.hi_x() == ax + 1);
            assert(p.hi_y() == ay + 1);
            assert(ccw_offset(p.shape, p.orientation, ax, ay) is Some);
            assert(ccw_offset(p.shape, p.orientation, ax, ay) == Some((ax, ay)));
            let images = ccw_images(p, ax, ay);
            assert(images.len() == 4);
            assert(images[0] == (ax + 1, ay));
            assert(images[1] == (ax + 1, ay + 1));
            assert(images[2] == (ax, ay));
            assert(images[3] == (ax, ay + 1));
            lemma_quad_members(images);
            assert forall|pt: (int, int)| q.pts().contains(pt) <==> (pt == (ax + 1, ay) || pt == (ax + 1, ay + 1) || pt == (ax, ay) || pt == (ax, ay + 1)) by {}
            lemma_step_case(q, (ax + 1, ay), (ax + 1, ay + 1), (ax, ay), (ax, ay + 1), (ax, ay), (ax + 1, ay), (ax, ay + 1), (ax + 1, ay + 1));
            assert(q.pts() == seq![(ax, ay), (ax + 1, ay), (ax, ay + 1), (ax + 1, ay + 1)]);
            assert(q.pts()[0] == q.points@[0].sp());
            assert(q.pts()[1] == q.points@[1].sp());
            assert(q.pts()[2] == q.points@[2].sp());
            assert(q.pts()[3] == q.points@[3].sp());
            assert(q.lo_x() == ax);
            assert(q.lo_y() == ay);
            assert(at_anchor(q.shape, q.orientation, ax, ay)[0] == (ax, ay));
            assert(at_anchor(q.shape, q.orientation, ax, ay)[1] == (ax + 1, ay));
            assert(at_anchor(q.shape, q.orientation, ax, ay)[2] == (ax, ay + 1));
            assert(at_anchor(q.shape, q.orientation, ax, ay)[3] == (ax + 1, ay + 1));
            assert(q.pts() =~= at_anchor(q.shape, q.orientation, ax, ay));
        },
        Orientation::Four => {
            assert(p.pts()[0] == p.points@[0].sp());
            assert(p.pts()[1] == p.points@[1].sp());
            assert(p.pts()[2] == p.points@[2].sp());
            assert(p.pts()[3] == p.points@[3].sp());
            assert(at_anchor(p.shape, p.orientation, ax, ay)[0] == (ax, ay));
            assert(at_anchor(p.shape, p.orientation, ax, ay)[1] == (ax + 1, ay));
            assert(at_anchor(p.shape, p.orientation, ax, ay)[2] == (ax, ay + 1));
            assert(at_anchor(p.shape, p.orientation, ax, ay)[3] == (ax + 1, ay + 1));
            assert(p.pts()[0] == (ax, ay));
            assert(p.pts()[1] == (ax + 1, ay));
            assert(p.pts()[2] == (ax, ay + 1));
            assert(p.pts()[3] == (ax + 1, ay + 1));
            assert(p.hi_x() == ax + 1);
            assert(p.hi_y() == ay + 1);
            assert(ccw_offset(p.shape, p.orientation, ax, ay) is Some);
            assert(ccw_offset(p.shape, p.orientation, ax, ay) == Some((ax, ay)));
            let images = ccw_images(p, ax, ay);
            assert(images.len() == 4);
            assert(images[0] == (ax + 1, ay));
            assert(images[1] == (ax + 1, ay + 1));
            assert(images[2] == (ax, ay));
            assert(images[3] == (ax, ay + 1));
            lemma_quad_members(images);
            assert forall|pt: (int, int)| q.pts().contains(pt) <==> (pt == (ax + 1, ay) || pt == (ax + 1, ay + 1) || pt == (ax, ay) || pt == (ax, ay + 1)) by {}
            lemma_step_case(q, (ax + 1, ay), (ax + 1, ay + 1), (ax, ay), (ax, ay + 1), (ax, ay), (ax + 1, ay), (ax, ay + 1), (ax + 1, ay + 1));
            assert(q.pts() == seq![(ax, ay), (ax + 1, ay), (ax, ay + 1), (ax + 1, ay + 1)]);
            assert(q.pts()[0] == q.points@[0].sp());
            assert(q.pts()[1] == q.points@[1].sp());
            assert(q.pts()[2] == q.points@[2].sp());
            assert(q.pts()[3] == q.points@[3].sp());
            assert(q.lo_x() == ax);
            assert(q.lo_y() == ay);
            assert(at_anchor(q.shape, q.orientation, ax, ay)[0] == (ax, ay));
            assert(at_anchor(q.shape, q.orientation, ax, ay)[1] == (ax + 1, ay));
            assert(at_anchor(q.shape, q.orientation, ax, ay)[2] == (ax, ay + 1));
            assert(at_anchor(q.shape, q.orientation, ax, ay)[3] == (ax + 1, ay + 1));
            assert(q.pts() =~= at_anchor(q.shape, q.orientation, ax, ay));
        },
    }
}

/// One counter-clockwise rotation step: from a piece in a canonical layout, the
/// rotation candidate is the canonical layout of the following orientation,
/// re-anchored as the step table says.
pub proof fn lemma_ccw_step(p: Piece, q: Piece)
    requires
        wf_layout(p),
        is_ccw_candidate(p, q),
    ensures
        q.shape == p.shape,
        q.orientation == prev_orientation(p.orientation),
        wf_layout(q),
        q.lo_x() == p.lo_x() + ccw_anchor_step(p.shape, p.orientation).0,
        q.lo_y() == p.lo_y() + ccw_anchor_step(p.shape, p.orientation).1,
{
    match p.shape {
        Shape::OrangeRicky => lemma_ccw_step_orange_ricky(p, q),
        Shape::BlueRicky => lemma_ccw_step_blue_ricky(p, q),
        Shape::ClevelandZ => lemma_ccw_step_cleveland_z(p, q),
        Shape::RhodeIslandZ => lemma_ccw_step_rhode_island_z(p, q),
        Shape::Hero => lemma_ccw_step_hero(p, q),
        Shape::Teewee => lemma_ccw_step_teewee(p, q),
        Shape::Smashboy => lemma_ccw_step_smashboy(p, q),
    }
}

/// Law: rotating a piece clockwise four times returns it to its original
/// point set and original orientation. Stated over the four successive
/// rotation candidates; near the left or bottom edge a step may have no
/// candidate, and then no such chain exists.
pub proof fn lemma_rotation_closure_cw(p: Piece, q1: Piece, q2: Piece, q3: Piece, q4: Piece)
    requires
        wf_layout(p),
        is_cw_candidate(p, q1),
        is_cw_candidate(q1, q2),
        is_cw_candidate(q2, q3),
        is_cw_candidate(q3, q4),
    ensures
        q4.shape == p.shape,
        q4.orientation == p.orientation,
        q4.pts() == p.pts(),
{
    lemma_cw_step(p, q1);
    lemma_cw_step(q1, q2);
    lemma_cw_step(q2, q3);
    lemma_cw_step(q3, q4);
    assert(q4.lo_x() == p.lo_x() && q4.lo_y() == p.lo_y());
}

/// Law: the same closure holds counter-clockwise.
pub proof fn lemma_rotation_closure_ccw(p: Piece, q1: Piece, q2: Piece, q3: Piece, q4: Piece)
    requires
        wf_layout(p),
        is_ccw_candidate(p, q1),
        is_ccw_candidate(q1, q2),
        is_ccw_candidate(q2, q3),
        is_ccw_candidate(q3, q4),
    ensures
        q4.shape == p.shape,
        q4.orientation == p.orientation,
        q4.pts() == p.pts(),
{
    lemma_ccw_step(p, q1);
    lemma_ccw_step(q1, q2);
    lemma_ccw_step(q2, q3);
    lemma_ccw_step(q3, q4);
    assert(q4.lo_x() == p.lo_x() && q4.lo_y() == p.lo_y());
}

/// Law: the square piece's point set is identical before and after a
/// clockwise rotation.
pub proof fn lemma_square_invariance_cw(p: Piece, q: Piece)
    requires
        p.shape == Shape::Smashboy,
        wf_layout(p),
        is_cw_candidate(p, q),
    ensures
        q.pts() == p.pts(),
{
    lemma_cw_step(p, q);
    assert(layout(q.shape, q.orientation) == layout(p.shape, p.orientation));
    assert(q.pts() =~= p.pts());
}

/// Law: the square piece's point set is identical before and after a
/// counter-clockwise rotation.
pub proof fn lemma_square_invariance_ccw(p: Piece, q: Piece)
    requires
        p.shape == Shape::Smashboy,
        wf_layout(p),
        is_ccw_candidate(p, q),
    ensures
        q.pts() == p.pts(),
{
    lemma_ccw_step(p, q);
    assert(layout(q.shape, q.orientation) == layout(p.shape, p.orientation));
    assert(q.pts() =~= p.pts());
}


/// A one-cell (or any) translation of a piece in canonical layout is the
/// same layout at the translated anchor.
pub proof fn lemma_shift_layout(p: Piece, c: Piece, dx: int, dy: int)
    requires
        wf_layout(p),
        c.shape == p.shape,
        c.orientation == p.orientation,
        forall|i: int|
            0 <= i < 4 ==> (#[trigger] c.points@[i]).sp() == (
                p.points@[i].x + dx,
                p.points@[i].y + dy,
            ),
    ensures
        wf_layout(c),
        c.lo_x() == p.lo_x() + dx,
        c.lo_y() == p.lo_y() + dy,
{
    let ax = p.lo_x();
    let ay = p.lo_y();
    assert forall|i: int| 0 <= i < 4 implies #[trigger] c.pts()[i] == (
        p.pts()[i].0 + dx,
        p.pts()[i].1 + dy,
    ) by {
        assert(c.pts()[i] == c.points@[i].sp());
        assert(p.pts()[i] == p.points@[i].sp());
    }
    assert(c.lo_x() == ax + dx);
    assert(c.lo_y() == ay + dy);
    assert forall|i: int|
        0 <= i < 4 implies #[trigger] at_anchor(c.shape, c.orientation, ax + dx, ay + dy)[i]
        == c.pts()[i] by {
        assert(at_anchor(p.shape, p.orientation, ax, ay)[i] == (
            layout(p.shape, p.orientation)[i].0 + ax,
            layout(p.shape, p.orientation)[i].1 + ay,
        ));
        assert(at_anchor(c.shape, c.orientation, ax + dx, ay + dy)[i] == (
            layout(p.shape, p.orientation)[i].0 + ax + dx,
            layout(p.shape, p.orientation)[i].1 + ay + dy,
        ));
        assert(p.pts()[i] == at_anchor(p.shape, p.orientation, ax, ay)[i]);
    }
    assert(c.pts() =~= at_anchor(c.shape, c.orientation, ax + dx, ay + dy));
}

} // verus!
