//! The game orchestrator: owns the board, the falling and upcoming pieces,
//! the cumulative stats and the level queue, and drives the
//! lock → clear → score → level-advance → spawn cycle on every intent.

use vstd::prelude::*;
use crate::level::{level_spec, Level, NUM_LEVELS};
use crate::matrix::{
    board_after_apply, board_after_clear, board_after_settle, full_row_count, pts_ok, rect,
    rows_cleared_of, white_cell, Cell, Color, Matrix, HEIGHT, WIDTH,
};
use crate::piece::{is_spawn_of, next_orientation, prev_orientation, Piece, Point};
use crate::laws::{lemma_ccw_step, lemma_cw_step, lemma_shift_layout, lemma_spawn_layout, wf_layout};
use crate::rotate::{ccw_offset, cw_offset, is_ccw_candidate, is_cw_candidate, strictly_sorted_yx};
use crate::scoring::{rows_cleared_count, RowsCleared};

verus! {

/// Addition on the cumulative counters, capped at the machine limit instead
/// of overflowing.
pub open spec fn sat_add(a: int, b: int) -> int {
    if a + b <= usize::MAX as int {
        a + b
    } else {
        usize::MAX as int
    }
}

/// How the board was seeded: empty, or with its bottom rows partly
/// pre-filled at random.
#[derive(Debug, Eq, PartialEq, Clone, Copy, Structural)]
pub enum GameMode {
    AType,
    BType,
}

/// Cumulative score and cleared-row count; both only ever grow.
#[derive(Debug, Eq, PartialEq, Clone, Copy, Structural)]
pub struct Stats {
    pub score: usize,
    pub rows_cleared: usize,
}

impl Stats {
    pub fn new() -> (s: Self)
        ensures
            s.score == 0,
            s.rows_cleared == 0,
    {
        Self { score: 0, rows_cleared: 0 }
    }

    /// Adds one placement's reward and clear count to the totals.
    pub fn update(&mut self, score: usize, rows: &RowsCleared)
        ensures
            final(self).score == sat_add(old(self).score as int, score as int),
            final(self).rows_cleared == sat_add(
                old(self).rows_cleared as int,
                rows_cleared_count(*rows),
            ),
    {
        self.score = self.score.saturating_add(score);
        self.record_rows_cleared(rows);
    }

    fn record_rows_cleared(&mut self, rows: &RowsCleared)
        ensures
            final(self).score == old(self).score,
            final(self).rows_cleared == sat_add(
                old(self).rows_cleared as int,
                rows_cleared_count(*rows),
            ),
    {
        let n: usize = match rows {
            RowsCleared::Zero => 0,
            RowsCleared::One => 1,
            RowsCleared::Two => 2,
            RowsCleared::Three => 3,
            RowsCleared::Four => 4,
        };
        self.rows_cleared = self.rows_cleared.saturating_add(n);
    }
}

/// The piece has four pairwise distinct cells, all on the board.
pub open spec fn wf_piece(p: Piece) -> bool {
    &&& p.pts_distinct()
    &&& forall|i: int|
        0 <= i < 4 ==> (#[trigger] p.points@[i]).x < WIDTH && p.points@[i].y < HEIGHT
}

/// The points of `p` translated by one cell in the given direction.
pub open spec fn shift_pts(p: Piece, dx: int, dy: int) -> Seq<Point> {
    p.points@.map_values(
        |pt: Point| Point { x: (pt.x + dx) as usize, y: (pt.y + dy) as usize },
    )
}

pub struct Game {
    pub board: Matrix<Cell>,
    pub current_piece: Piece,
    pub next_piece: Piece,
    pub stats: Stats,
    pub level: Level,
    pub levels: Vec<Level>,
    pub wants_to_quit: bool,
    pub paused: bool,
    pub game_over: bool,
}

/// Everything that follows from settling the falling piece: the board locks
/// and clears, the stats grow by the level's reward, the level advances when
/// its threshold is met (or the game heads for quitting when no level is
/// left), the next piece is promoted, a fresh random piece is queued, and
/// the game ends if the promoted piece cannot occupy its cells.
pub open spec fn placement_outcome(g0: Game, g1: Game) -> bool {
    let color = g0.level.theme.spec_piece_color(g0.current_piece.shape);
    let settled = if pts_ok(g0.board@, g0.current_piece.points@) {
        board_after_settle(g0.board@, g0.current_piece.points@, color)
    } else {
        g0.board@
    };
    let cleared = board_after_clear(settled);
    let rc = rows_cleared_of(full_row_count(settled));
    let gained = g0.level.scoring_config.spec_score(rc);
    let new_rows = sat_add(g0.stats.rows_cleared as int, rows_cleared_count(rc));
    let advance = new_rows >= g0.level.rows_to_pass;
    &&& g1.board@ == cleared
    &&& g1.stats.score == sat_add(g0.stats.score as int, gained as int)
    &&& g1.stats.rows_cleared == new_rows
    &&& (advance && g0.levels@.len() > 0 ==> g1.level == g0.levels@[0] && g1.levels@
        == g0.levels@.skip(1) && g1.wants_to_quit == g0.wants_to_quit)
    &&& (advance && g0.levels@.len() == 0 ==> g1.level == g0.level && g1.levels@ == g0.levels@
        && g1.wants_to_quit)
    &&& (!advance ==> g1.level == g0.level && g1.levels@ == g0.levels@ && g1.wants_to_quit
        == g0.wants_to_quit)
    &&& g1.current_piece == g0.next_piece
    &&& is_spawn_of(g1.next_piece, Point { x: 4, y: 18 })
    &&& g1.game_over == !pts_ok(cleared, g0.next_piece.points@)
    &&& g1.paused == g0.paused
}

/// What one soft-drop does from a running state: either the piece descends
/// one row, or it cannot and is placed.
pub open spec fn descend_or_place(g0: Game, g1: Game) -> bool {
    let p0 = g0.current_piece;
    let moved = shift_pts(p0, 0, -1);
    let color = g0.level.theme.spec_piece_color(p0.shape);
    &&& ((forall|i: int| 0 <= i < 4 ==> (#[trigger] p0.points@[i]).y >= 1) && pts_ok(
        g0.board@,
        moved,
    ) ==> {
        &&& g1.board@ == board_after_apply(g0.board@, moved, color)
        &&& g1.current_piece.shape == p0.shape
        &&& g1.current_piece.orientation == p0.orientation
        &&& g1.current_piece.points@ == moved
        &&& g1 == (Game { board: g1.board, current_piece: g1.current_piece, ..g0 })
    })
    &&& (((exists|i: int| 0 <= i < 4 && (#[trigger] p0.points@[i]).y < 1) || !pts_ok(
        g0.board@,
        moved,
    )) ==> placement_outcome(g0, g1))
}

impl Game {
    /// The game's running invariant: pieces are on the board with distinct
    /// cells, the board has its fixed dimensions, and every level's tick
    /// counter is within its cadence.
    pub open spec fn wf(self) -> bool {
        &&& self.board@.len() == HEIGHT
        &&& rect(self.board@, WIDTH as int)
        &&& wf_piece(self.current_piece)
        &&& wf_layout(self.current_piece)
        &&& wf_piece(self.next_piece)
        &&& wf_layout(self.next_piece)
        &&& self.level.wf()
        &&& forall|i: int| 0 <= i < self.levels@.len() ==> (#[trigger] self.levels@[i]).wf()
    }

    /// Movement intents are ignored while paused or after game over.
    pub open spec fn stopped(self) -> bool {
        self.paused || self.game_over
    }

    /// A fresh game: the board seeded by `mode`, starting at the level with
    /// index `initial_level` (as the configuration wizard counts them, from
    /// zero), with the harder levels queued after it.
    pub fn new(mode: GameMode, initial_level: usize) -> (g: Game)
        requires
            initial_level < NUM_LEVELS,
        ensures
            g.wf(),
            g.stats.score == 0 && g.stats.rows_cleared == 0,
            g.level == level_spec(initial_level + 1),
            g.levels@.len() == NUM_LEVELS - 1 - initial_level,
            forall|i: int|
                0 <= i < g.levels@.len() ==> g.levels@[i] == level_spec(initial_level + i + 2),
            !g.wants_to_quit && !g.paused && !g.game_over,
            is_spawn_of(g.current_piece, Point { x: 4, y: 18 }),
            is_spawn_of(g.next_piece, Point { x: 4, y: 18 }),
            g.board@.len() == HEIGHT && rect(g.board@, WIDTH as int),
            mode == GameMode::AType ==> forall|y: int, x: int|
                0 <= y < HEIGHT && 0 <= x < WIDTH ==> g.board@[y][x] == white_cell(),
            mode == GameMode::BType ==> (forall|y: int, x: int|
                5 <= y < HEIGHT && 0 <= x < WIDTH ==> g.board@[y][x] == white_cell()) && (
            forall|y: int, x: int|
                0 <= y < 5 && 0 <= x < WIDTH ==> (g.board@[y][x] == white_cell() || g.board@[y][x]
                    == (Cell { value: Color::Black, color: 15 }))),
    {
        let board = match mode {
            GameMode::AType => Matrix::empty(),
            GameMode::BType => Matrix::random_partial_fill(),
        };
        let origin = Point::new(4, 18);
        let mut levels = Level::all();
        let mut skipped: usize = 0;
        while skipped < initial_level
            invariant
                skipped <= initial_level,
                initial_level < NUM_LEVELS,
                levels@.len() == NUM_LEVELS - skipped,
                forall|i: int|
                    0 <= i < levels@.len() ==> levels@[i] == level_spec(skipped + i + 1),
            decreases initial_level - skipped,
        {
            let ghost levels0 = levels@;
            let _ = levels.remove(0);
            proof {
                assert forall|i: int| 0 <= i < levels@.len() implies levels@[i] == level_spec(
                    skipped + i + 2,
                ) by {
                    assert(levels@[i] == levels0[i + 1]);
                }
            }
            skipped = skipped + 1;
        }
        let level = levels.remove(0);
        let current_piece = Piece::random(origin);
        let next_piece = Piece::random(origin);
        proof {
            lemma_spawn_wf(current_piece);
            lemma_spawn_wf(next_piece);
            lemma_spawn_layout(current_piece, origin);
            lemma_spawn_layout(next_piece, origin);
            assert forall|i: int| 0 <= i < levels@.len() implies levels@[i] == level_spec(
                initial_level + i + 2,
            ) by {}
        }
        Self {
            board,
            level,
            levels,
            current_piece,
            next_piece,
            stats: Stats::new(),
            wants_to_quit: false,
            paused: false,
            game_over: false,
        }
    }

    /// Asks the session to end; the outer loop polls this flag.
    pub fn quit(&mut self)
        ensures
            *final(self) == (Game { wants_to_quit: true, ..*old(self) }),
    {
        self.wants_to_quit = true
    }

    pub fn should_quit(&self) -> (r: bool)
        ensures
            r == self.wants_to_quit,
    {
        self.wants_to_quit
    }

    fn is_stopped(&self) -> (r: bool)
        ensures
            r == self.stopped(),
    {
        self.paused || self.game_over
    }

    /// The display color the current level's theme gives a piece.
    pub fn piece_color(&self, piece: &Piece) -> (c: u8)
        ensures
            c == self.level.theme.spec_piece_color(piece.shape),
    {
        self.level.theme.piece_color(piece)
    }

    /// Pauses or resumes; ignored once the game is over.
    pub fn toggle_pause(&mut self)
        ensures
            old(self).game_over ==> *final(self) == *old(self),
            !old(self).game_over ==> *final(self) == (Game {
                paused: !old(self).paused,
                ..*old(self)
            }),
    {
        if self.game_over {
            return ;
        }
        self.paused = !self.paused;
    }

    /// Tries to replace the falling piece by the candidate: the board either
    /// accepts it (the overlay moves and the candidate becomes current) or
    /// rejects it, leaving the whole game unchanged. No-op when stopped or
    /// when there is no candidate.
    pub fn handle_movement(&mut self, candidate: Option<Piece>) -> (r: Option<()>)
        requires
            old(self).wf(),
            candidate matches Some(c) ==> c.pts_distinct() && wf_layout(c),
        ensures
            final(self).wf(),
            old(self).stopped() ==> *final(self) == *old(self) && r is None,
            !old(self).stopped() ==> match candidate {
                None => *final(self) == *old(self) && r is None,
                Some(c) => {
                    let color = old(self).level.theme.spec_piece_color(c.shape);
                    &&& (pts_ok(old(self).board@, c.points@) ==> {
                        &&& r is Some
                        &&& final(self).board@ == board_after_apply(
                            old(self).board@,
                            c.points@,
                            color,
                        )
                        &&& final(self).current_piece == c
                        &&& *final(self) == (Game {
                            board: final(self).board,
                            current_piece: final(self).current_piece,
                            ..*old(self)
                        })
                    })
                    &&& (!pts_ok(old(self).board@, c.points@) ==> *final(self) == *old(self)
                        && r is None)
                },
            },
    {
        if self.is_stopped() {
            return None;
        }
        match candidate {
            None => None,
            Some(c) => {
                let color = self.piece_color(&c);
                let accepted = self.board.apply(c, color).is_some();
                if accepted {
                    self.current_piece = c;
                    Some(())
                } else {
                    None
                }
            },
        }
    }

    /// Tries to move the falling piece one column to the left.
    pub fn on_left(&mut self)
        requires
            old(self).wf(),
        ensures
            final(self).wf(),
            old(self).stopped() ==> *final(self) == *old(self),
            !old(self).stopped() ==> {
                let p0 = old(self).current_piece;
                let moved = shift_pts(p0, -1, 0);
                let color = old(self).level.theme.spec_piece_color(p0.shape);
                &&& ((exists|i: int| 0 <= i < 4 && (#[trigger] p0.points@[i]).x < 1)
                    ==> *final(self) == *old(self))
                &&& ((forall|i: int| 0 <= i < 4 ==> (#[trigger] p0.points@[i]).x >= 1) ==> {
                    &&& (pts_ok(old(self).board@, moved) ==> {
                        &&& final(self).board@ == board_after_apply(
                            old(self).board@,
                            moved,
                            color,
                        )
                        &&& final(self).current_piece.shape == p0.shape
                        &&& final(self).current_piece.orientation == p0.orientation
                        &&& final(self).current_piece.points@ == moved
                        &&& *final(self) == (Game {
                            board: final(self).board,
                            current_piece: final(self).current_piece,
                            ..*old(self)
                        })
                    })
                    &&& (!pts_ok(old(self).board@, moved) ==> *final(self) == *old(self))
                })
            },
    {
        let ghost p0 = self.current_piece;
        let cand = self.current_piece.project_left();
        proof {
            lemma_shift_candidate(p0, cand, -1, 0);
        }
        let _ = self.handle_movement(cand);
    }

    /// Tries to move the falling piece one column to the right.
    pub fn on_right(&mut self)
        requires
            old(self).wf(),
        ensures
            final(self).wf(),
            old(self).stopped() ==> *final(self) == *old(self),
            !old(self).stopped() ==> {
                let p0 = old(self).current_piece;
                let moved = shift_pts(p0, 1, 0);
                let color = old(self).level.theme.spec_piece_color(p0.shape);
                &&& ((exists|i: int| 0 <= i < 4 && (#[trigger] p0.points@[i]).x >= 9)
                    ==> *final(self) == *old(self))
                &&& ((forall|i: int| 0 <= i < 4 ==> (#[trigger] p0.points@[i]).x < 9) ==> {
                    &&& (pts_ok(old(self).board@, moved) ==> {
                        &&& final(self).board@ == board_after_apply(
                            old(self).board@,
                            moved,
                            color,
                        )
                        &&& final(self).current_piece.shape == p0.shape
                        &&& final(self).current_piece.orientation == p0.orientation
                        &&& final(self).current_piece.points@ == moved
                        &&& *final(self) == (Game {
                            board: final(self).board,
                            current_piece: final(self).current_piece,
                            ..*old(self)
                        })
                    })
                    &&& (!pts_ok(old(self).board@, moved) ==> *final(self) == *old(self))
                })
            },
    {
        let ghost p0 = self.current_piece;
        let cand = self.current_piece.project_right();
        proof {
            lemma_shift_candidate(p0, cand, 1, 0);
        }
        let _ = self.handle_movement(cand);
    }

    /// Soft drop: the piece descends one row, or, if it cannot, it is
    /// considered placed and the placement sequence runs.
    pub fn on_down(&mut self)
        requires
            old(self).wf(),
        ensures
            final(self).wf(),
            old(self).stopped() ==> *final(self) == *old(self),
            !old(self).stopped() ==> descend_or_place(*old(self), *final(self)),
    {
        let ghost p0 = self.current_piece;
        let cand = self.current_piece.project_down();
        proof {
            lemma_shift_candidate(p0, cand, 0, -1);
        }
        let moved = self.handle_movement(cand);
        if moved.is_none() {
            self.piece_placed();
        }
    }

    /// Tries to rotate the falling piece clockwise.
    pub fn on_rotate_clockwise(&mut self)
        requires
            old(self).wf(),
        ensures
            final(self).wf(),
            old(self).stopped() ==> *final(self) == *old(self),
            !old(self).stopped() ==> {
                let p0 = old(self).current_piece;
                &&& (cw_offset(p0.shape, p0.orientation, p0.lo_x(), p0.lo_y()) is None
                    ==> *final(self) == *old(self))
                &&& (forall|q: Piece| #[trigger] is_cw_candidate(p0, q) ==> {
                    let color = old(self).level.theme.spec_piece_color(p0.shape);
                    &&& (pts_ok(old(self).board@, q.points@) ==> {
                        &&& final(self).board@ == board_after_apply(
                            old(self).board@,
                            q.points@,
                            color,
                        )
                        &&& final(self).current_piece.shape == p0.shape
                        &&& final(self).current_piece.orientation == next_orientation(
                            p0.orientation,
                        )
                        &&& final(self).current_piece.points@ == q.points@
                        &&& *final(self) == (Game {
                            board: final(self).board,
                            current_piece: final(self).current_piece,
                            ..*old(self)
                        })
                    })
                    &&& (!pts_ok(old(self).board@, q.points@) ==> *final(self) == *old(self))
                })
            },
    {
        let ghost p0 = self.current_piece;
        let cand = self.current_piece.project_clockwise_rotation();
        proof {
            match cand {
                Some(c) => {
                    lemma_cw_step(p0, c);
                },
                None => {},
            }
        }
        let _ = self.handle_movement(cand);
        proof {
            match cand {
                Some(c) => {
                    assert forall|q: Piece| is_cw_candidate(p0, q) implies q.points@
                        == c.points@ by {
                        lemma_same_candidate(q, c);
                    }
                },
                None => {},
            }
        }
    }

    /// Tries to rotate the falling piece counter-clockwise.
    pub fn on_rotate_counterclockwise(&mut self)
        requires
            old(self).wf(),
        ensures
            final(self).wf(),
            old(self).stopped() ==> *final(self) == *old(self),
            !old(self).stopped() ==> {
                let p0 = old(self).current_piece;
                &&& (ccw_offset(p0.shape, p0.orientation, p0.lo_x(), p0.lo_y()) is None
                    ==> *final(self) == *old(self))
                &&& (forall|q: Piece| #[trigger] is_ccw_candidate(p0, q) ==> {
                    let color = old(self).level.theme.spec_piece_color(p0.shape);
                    &&& (pts_ok(old(self).board@, q.points@) ==> {
                        &&& final(self).board@ == board_after_apply(
                            old(self).board@,
                            q.points@,
                            color,
                        )
                        &&& final(self).current_piece.shape == p0.shape
                        &&& final(self).current_piece.orientation == prev_orientation(
                            p0.orientation,
                        )
                        &&& final(self).current_piece.points@ == q.points@
                        &&& *final(self) == (Game {
                            board: final(self).board,
                            current_piece: final(self).current_piece,
                            ..*old(self)
                        })
                    })
                    &&& (!pts_ok(old(self).board@, q.points@) ==> *final(self) == *old(self))
                })
            },
    {
        let ghost p0 = self.current_piece;
        let cand = self.current_piece.project_counterclockwise_rotation();
        proof {
            match cand {
                Some(c) => {
                    lemma_ccw_step(p0, c);
                },
                None => {},
            }
        }
        let _ = self.handle_movement(cand);
        proof {
            match cand {
                Some(c) => {
                    assert forall|q: Piece| is_ccw_candidate(p0, q) implies q.points@
                        == c.points@ by {
                        lemma_same_candidate(q, c);
                    }
                },
                None => {},
            }
        }
    }

    /// A clock tick: advances the level's counter and, when the cadence is
    /// reached, soft-drops the piece. No-op while paused or after game over.
    pub fn on_tick(&mut self)
        requires
            old(self).wf(),
        ensures
            final(self).wf(),
            old(self).stopped() ==> *final(self) == *old(self),
            !old(self).stopped() ==> {
                let l0 = old(self).level;
                &&& (l0.counter + 1 < l0.ticks_per_drop ==> *final(self) == (Game {
                    level: (Level { counter: (l0.counter + 1) as usize, ..l0 }),
                    ..*old(self)
                }))
                &&& (l0.counter + 1 >= l0.ticks_per_drop ==> descend_or_place(
                    (Game { level: (Level { counter: 0, ..l0 }), ..*old(self) }),
                    *final(self),
                ))
            },
    {
        if self.is_stopped() {
            return ;
        }
        let drop_now = self.level.tick();
        let ghost mid = *self;
        if drop_now.is_some() {
            self.on_down();
            proof {
                assert(mid == (Game {
                    level: (Level { counter: 0, ..old(self).level }),
                    ..*old(self)
                }));
            }
        }
    }

    /// The placement sequence: settle the piece, clear full rows, score,
    /// advance the level, promote the next piece, spawn a new one, and
    /// check for game over.
    pub fn piece_placed(&mut self)
        requires
            old(self).wf(),
        ensures
            final(self).wf(),
            old(self).stopped() ==> *final(self) == *old(self),
            !old(self).stopped() ==> placement_outcome(*old(self), *final(self)),
    {
        if self.is_stopped() {
            return ;
        }
        let color = self.piece_color(&self.current_piece);
        let pts = self.current_piece.points;
        let _ = self.board.settle(pts.as_slice(), color);
        let rows_cleared = self.board.clear_full_rows();
        let score = self.level.scoring_config.score(&rows_cleared);
        self.stats.update(score, &rows_cleared);
        self.update_level();
        self.current_piece = self.next_piece;
        self.next_piece = Piece::random(Point::new(4, 18));
        proof {
            lemma_spawn_wf(self.next_piece);
            lemma_spawn_layout(self.next_piece, Point { x: 4, y: 18 });
        }
        if !self.board.can_apply(self.current_piece.points.as_slice()) {
            self.game_over = true;
        }
    }

    /// Pops the next level once the cumulative cleared rows reach the
    /// current level's threshold; with no level left, asks to quit instead.
    pub fn update_level(&mut self)
        requires
            old(self).wf(),
        ensures
            final(self).wf(),
            final(self).stats == old(self).stats,
            old(self).stats.rows_cleared < old(self).level.rows_to_pass ==> *final(self) == *old(
                self,
            ),
            old(self).stats.rows_cleared >= old(self).level.rows_to_pass && old(
                self,
            ).levels@.len() > 0 ==> {
                &&& final(self).level == old(self).levels@[0]
                &&& final(self).levels@ == old(self).levels@.skip(1)
                &&& *final(self) == (Game {
                    level: final(self).level,
                    levels: final(self).levels,
                    ..*old(self)
                })
            },
            old(self).stats.rows_cleared >= old(self).level.rows_to_pass && old(
                self,
            ).levels@.len() == 0 ==> *final(self) == (Game {
                wants_to_quit: true,
                ..*old(self)
            }),
    {
        if self.stats.rows_cleared < self.level.rows_to_pass {
            return ;
        }
        if self.levels.len() > 0 {
            let ghost levels0 = self.levels@;
            let next_level = self.levels.remove(0);
            self.level = next_level;
            proof {
                assert(self.levels@ =~= levels0.skip(1));
            }
        } else {
            self.quit()
        }
    }
}

/// Law: the cumulative stats never decrease across a placement; every other
/// intent leaves them untouched.
pub proof fn lemma_stats_monotonic(g0: Game, g1: Game)
    requires
        placement_outcome(g0, g1),
    ensures
        g1.stats.score >= g0.stats.score,
        g1.stats.rows_cleared >= g0.stats.rows_cleared,
{
}

/// A one-cell translation of a well-formed piece keeps its cells distinct,
/// and its point sequence is the shifted one.
proof fn lemma_shift_candidate(p0: Piece, cand: Option<Piece>, dx: int, dy: int)
    requires
        p0.pts_distinct(),
        wf_layout(p0),
        cand matches Some(c) ==> {
            &&& c.shape == p0.shape
            &&& c.orientation == p0.orientation
            &&& forall|i: int|
                0 <= i < 4 ==> (#[trigger] c.points@[i]).sp() == (
                    p0.points@[i].x + dx,
                    p0.points@[i].y + dy,
                )
        },
    ensures
        cand matches Some(c) ==> c.pts_distinct() && wf_layout(c) && c.points@ == shift_pts(
            p0,
            dx,
            dy,
        ),
{
    match cand {
        Some(c) => {
            lemma_shift_layout(p0, c, dx, dy);
            assert forall|i: int, j: int| 0 <= i < j < 4 implies c.pts()[i] != c.pts()[j] by {
                assert(c.pts()[i] == c.points@[i].sp());
                assert(c.pts()[j] == c.points@[j].sp());
                assert(p0.pts()[i] == p0.points@[i].sp());
                assert(p0.pts()[j] == p0.points@[j].sp());
                assert(p0.pts()[i] != p0.pts()[j]);
            }
            assert forall|i: int| 0 <= i < 4 implies c.points@[i] == shift_pts(p0, dx, dy)[i] by {
                assert(shift_pts(p0, dx, dy)[i] == (Point {
                    x: (p0.points@[i].x + dx) as usize,
                    y: (p0.points@[i].y + dy) as usize,
                }));
            }
            assert(c.points@ =~= shift_pts(p0, dx, dy));
        },
        None => {},
    }
}

/// Two pieces that satisfy the same rotation-candidate characterization
/// hold the same points: strictly sorted sequences with the same members
/// are equal.
proof fn lemma_same_candidate(q: Piece, c: Piece)
    requires
        strictly_sorted_yx(q.pts()),
        strictly_sorted_yx(c.pts()),
        forall|p: (int, int)| q.pts().contains(p) <==> c.pts().contains(p),
    ensures
        q.points@ == c.points@,
{
    crate::rotate::lemma_sorted_unique(q.pts(), c.pts());
    assert forall|i: int| 0 <= i < 4 implies q.points@[i] == c.points@[i] by {
        assert(q.pts()[i] == q.points@[i].sp());
        assert(c.pts()[i] == c.points@[i].sp());
    }
    assert(q.points@ =~= c.points@);
}

/// A piece freshly spawned at the standard spawn point is well-formed.
pub proof fn lemma_spawn_wf(p: Piece)
    requires
        is_spawn_of(p, Point { x: 4, y: 18 }),
    ensures
        wf_piece(p),
{
    assert(p.pts()[0] == p.points@[0].sp());
    assert(p.pts()[1] == p.points@[1].sp());
    assert(p.pts()[2] == p.points@[2].sp());
    assert(p.pts()[3] == p.points@[3].sp());
}

} // verus!
