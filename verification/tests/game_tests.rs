use ttrys::game::{Game, GameMode};
use ttrys::matrix::{Cell, Color, Matrix};
use ttrys::piece::{Piece, Point};

fn setup(piece: Piece) -> Game {
    let mut game = Game::new(GameMode::AType, 0);
    let mut matrix = Matrix::empty();
    matrix.apply(piece, 14).unwrap();
    game.current_piece = piece;
    game.board = matrix;
    game
}

#[test]
fn test_on_down() {
    let origin = Point::new(4, 18);
    let piece = Piece::rhode_island_z(origin);
    let mut game = setup(piece);
    // assert initial piece position
    assert_eq!(game.board.get(4, 18).unwrap().value, Color::Gray);
    assert_eq!(game.board.get(5, 18).unwrap().value, Color::Gray);
    assert_eq!(game.board.get(5, 19).unwrap().value, Color::Gray);
    assert_eq!(game.board.get(6, 19).unwrap().value, Color::Gray);

    game.on_down();

    // assert new piece position
    assert_eq!(game.board.get(4, 17).unwrap().value, Color::Gray);
    assert_eq!(game.board.get(5, 17).unwrap().value, Color::Gray);
    assert_eq!(game.board.get(5, 18).unwrap().value, Color::Gray);
    assert_eq!(game.board.get(6, 18).unwrap().value, Color::Gray);

    // assert previous position is unoccupied
    assert_eq!(game.board.get(4, 18).unwrap().value, Color::White);
    assert_eq!(game.board.get(5, 18).unwrap().value, Color::Gray);
    assert_eq!(game.board.get(5, 19).unwrap().value, Color::White);
    assert_eq!(game.board.get(6, 19).unwrap().value, Color::White);
}

#[test]
fn test_on_down_to_bottom() {
    let origin = Point::new(4, 0);
    let piece = Piece::hero(origin);
    let mut game = setup(piece);
    // assert initial piece position
    assert_eq!(game.board.get(4, 0).unwrap().value, Color::Gray);
    assert_eq!(game.board.get(5, 0).unwrap().value, Color::Gray);
    assert_eq!(game.board.get(6, 0).unwrap().value, Color::Gray);
    assert_eq!(game.board.get(7, 0).unwrap().value, Color::Gray);

    game.on_down();

    // assert piece is settled
    assert_eq!(game.board.get(4, 0).unwrap().value, Color::Black);
    assert_eq!(game.board.get(5, 0).unwrap().value, Color::Black);
    assert_eq!(game.board.get(6, 0).unwrap().value, Color::Black);
    assert_eq!(game.board.get(7, 0).unwrap().value, Color::Black);
}

#[test]
fn test_on_left() {
    let origin = Point::new(1, 1);
    let piece = Piece::smashboy(origin);
    let mut game = setup(piece);

    // assert initial piece position
    assert_eq!(game.board.get(1, 1).unwrap().value, Color::Gray);
    assert_eq!(game.board.get(2, 1).unwrap().value, Color::Gray);
    assert_eq!(game.board.get(1, 2).unwrap().value, Color::Gray);
    assert_eq!(game.board.get(2, 2).unwrap().value, Color::Gray);

    game.on_left();

    // assert new piece position
    assert_eq!(game.board.get(0, 1).unwrap().value, Color::Gray);
    assert_eq!(game.board.get(1, 1).unwrap().value, Color::Gray);
    assert_eq!(game.board.get(0, 2).unwrap().value, Color::Gray);
    assert_eq!(game.board.get(1, 2).unwrap().value, Color::Gray);
}

#[test]
fn test_on_left_cannot_go_out_of_bounds() {
    let origin = Point::new(0, 1);
    let piece = Piece::smashboy(origin);
    let mut game = setup(piece);

    // assert initial piece position
    assert_eq!(game.board.get(0, 1).unwrap().value, Color::Gray);
    assert_eq!(game.board.get(1, 1).unwrap().value, Color::Gray);
    assert_eq!(game.board.get(0, 2).unwrap().value, Color::Gray);
    assert_eq!(game.board.get(1, 2).unwrap().value, Color::Gray);

    game.on_left();

    // assert piece position is unchanged
    assert_eq!(game.board.get(0, 1).unwrap().value, Color::Gray);
    assert_eq!(game.board.get(1, 1).unwrap().value, Color::Gray);
    assert_eq!(game.board.get(0, 2).unwrap().value, Color::Gray);
    assert_eq!(game.board.get(1, 2).unwrap().value, Color::Gray);
}

#[test]
fn test_on_right() {
    let origin = Point::new(7, 1);
    let piece = Piece::smashboy(origin);
    let mut game = setup(piece);

    // assert initial piece position
    assert_eq!(game.board.get(7, 1).unwrap().value, Color::Gray);
    assert_eq!(game.board.get(8, 1).unwrap().value, Color::Gray);
    assert_eq!(game.board.get(7, 2).unwrap().value, Color::Gray);
    assert_eq!(game.board.get(8, 2).unwrap().value, Color::Gray);

    game.on_right();

    // assert new piece position
    assert_eq!(game.board.get(8, 1).unwrap().value, Color::Gray);
    assert_eq!(game.board.get(9, 1).unwrap().value, Color::Gray);
    assert_eq!(game.board.get(8, 2).unwrap().value, Color::Gray);
    assert_eq!(game.board.get(9, 2).unwrap().value, Color::Gray);
}

#[test]
fn test_on_right_cannot_go_out_of_bounds() {
    let origin = Point::new(8, 1);
    let piece = Piece::smashboy(origin);
    let mut game = setup(piece);

    // assert new piece position
    assert_eq!(game.board.get(8, 1).unwrap().value, Color::Gray);
    assert_eq!(game.board.get(9, 1).unwrap().value, Color::Gray);
    assert_eq!(game.board.get(8, 2).unwrap().value, Color::Gray);
    assert_eq!(game.board.get(9, 2).unwrap().value, Color::Gray);

    game.on_right();

    // assert position is unchanged
    assert_eq!(game.board.get(8, 1).unwrap().value, Color::Gray);
    assert_eq!(game.board.get(9, 1).unwrap().value, Color::Gray);
    assert_eq!(game.board.get(8, 2).unwrap().value, Color::Gray);
    assert_eq!(game.board.get(9, 2).unwrap().value, Color::Gray);
}

#[test]
fn test_settle_and_clear_scores_one_line() {
    // One row fully locked except for the four cells a hero piece is about
    // to complete; a block above it must drop by one, color preserved.
    let piece = Piece::hero(Point::new(6, 0));
    let mut game = setup(piece);
    for x in 0..6usize {
        game.board.set(x, 0, Cell::black(2));
    }
    game.board.set(3, 1, Cell::black(5));

    game.on_down();

    // the full bottom row is gone; the block above dropped into it
    assert_eq!(game.board.get(3, 0).unwrap(), Cell::black(5));
    for x in 0..10usize {
        if x != 3 {
            assert_eq!(game.board.get(x, 0).unwrap().value, Color::White);
        }
        assert_eq!(game.board.get(x, 1).unwrap().value, Color::White);
    }
    // one line cleared at level 1 scores its one-line reward
    assert_eq!(game.stats.rows_cleared, 1);
    assert_eq!(game.stats.score, 40);
    assert!(!game.game_over);
}

#[test]
fn test_game_over_on_blocked_spawn() {
    let piece = Piece::smashboy(Point::new(0, 0));
    let mut game = setup(piece);
    // lock the whole spawn area so no fresh piece can appear
    for x in 4..8usize {
        game.board.set(x, 18, Cell::black(1));
        game.board.set(x, 19, Cell::black(1));
    }

    game.on_down();
    assert!(game.game_over);

    // no further movement intent has any effect
    let held = game.current_piece.points;
    game.on_left();
    assert_eq!(game.current_piece.points, held);
    game.on_right();
    assert_eq!(game.current_piece.points, held);
    game.on_down();
    assert_eq!(game.current_piece.points, held);
    game.on_rotate_clockwise();
    assert_eq!(game.current_piece.points, held);
    game.on_rotate_counterclockwise();
    assert_eq!(game.current_piece.points, held);
}

#[test]
fn test_level_advances_at_threshold() {
    let piece = Piece::hero(Point::new(6, 0));
    let mut game = setup(piece);
    for x in 0..6usize {
        game.board.set(x, 0, Cell::black(2));
    }
    game.stats.rows_cleared = 9;

    game.on_down();

    // ten cumulative rows pass level 1; level 2 is faster and pays more
    assert_eq!(game.stats.rows_cleared, 10);
    assert_eq!(game.level.number, 2);
    assert_eq!(game.level.ticks_per_drop, 53);
    assert_eq!(game.level.rows_to_pass, 20);
    assert_eq!(game.level.scoring_config.one, 80);
    assert!(!game.wants_to_quit);
}

#[test]
fn test_quit_when_levels_run_out() {
    let piece = Piece::hero(Point::new(6, 0));
    let mut game = setup(piece);
    for x in 0..6usize {
        game.board.set(x, 0, Cell::black(2));
    }
    game.stats.rows_cleared = 9;
    game.levels = Vec::new();

    game.on_down();

    assert_eq!(game.stats.rows_cleared, 10);
    assert!(game.wants_to_quit);
    assert_eq!(game.level.number, 1);
}

#[test]
fn test_hero_locks_with_theme_color() {
    // A piece dropped at the bottom row locks on the first down intent with
    // the level-one theme color for its shape.
    let piece = Piece::hero(Point::new(4, 0));
    let mut game = setup(piece);

    game.on_down();

    for x in 4..8usize {
        assert_eq!(game.board.get(x, 0).unwrap(), Cell::black(14));
    }
    assert_eq!(game.stats.rows_cleared, 0);
    assert_eq!(game.stats.score, 0);
}

#[test]
fn test_on_tick_drops_at_cadence() {
    let piece = Piece::smashboy(Point::new(4, 10));
    let mut game = setup(piece);

    game.on_tick();
    // one tick is not yet the cadence: nothing moves
    assert_eq!(game.level.counter, 1);
    assert_eq!(game.board.get(4, 10).unwrap().value, Color::Gray);

    game.level.counter = game.level.ticks_per_drop - 1;
    game.on_tick();
    // the cadence tick resets the counter and drops the piece one row
    assert_eq!(game.level.counter, 0);
    assert_eq!(game.board.get(4, 9).unwrap().value, Color::Gray);
    assert_eq!(game.board.get(4, 11).unwrap().value, Color::White);
}

#[test]
fn test_toggle_pause_blocks_movement() {
    let piece = Piece::smashboy(Point::new(4, 10));
    let mut game = setup(piece);

    game.toggle_pause();
    assert!(game.paused);
    let held = game.current_piece.points;
    game.on_left();
    assert_eq!(game.current_piece.points, held);
    game.on_tick();
    assert_eq!(game.level.counter, 0);

    game.toggle_pause();
    assert!(!game.paused);
    game.on_left();
    assert_ne!(game.current_piece.points, held);
}

#[test]
fn test_quit_flag() {
    let mut game = Game::new(GameMode::AType, 0);
    assert!(!game.should_quit());
    game.quit();
    assert!(game.should_quit());
}

#[test]
fn test_rotation_moves_overlay() {
    let piece = Piece::hero(Point::new(3, 10));
    let mut game = setup(piece);

    game.on_rotate_clockwise();
    // the hero stands up in its rightmost column
    assert_eq!(
        game.current_piece.points,
        [
            Point::new(5, 9),
            Point::new(5, 10),
            Point::new(5, 11),
            Point::new(5, 12)
        ]
    );
    assert_eq!(game.board.get(5, 9).unwrap().value, Color::Gray);
    assert_eq!(game.board.get(3, 10).unwrap().value, Color::White);

    game.on_rotate_counterclockwise();
    assert_eq!(
        game.current_piece.points,
        [
            Point::new(3, 10),
            Point::new(4, 10),
            Point::new(5, 10),
            Point::new(6, 10)
        ]
    );
}

#[test]
fn test_new_game_initial_state() {
    let game = Game::new(GameMode::AType, 0);
    assert_eq!(game.stats.score, 0);
    assert_eq!(game.stats.rows_cleared, 0);
    assert_eq!(game.level.number, 1);
    assert_eq!(game.level.ticks_per_drop, 57);
    assert_eq!(game.levels.len(), 9);
    assert!(!game.paused && !game.game_over && !game.should_quit());
    for y in 0..20usize {
        for x in 0..10usize {
            assert_eq!(game.board.get(x, y).unwrap().value, Color::White);
        }
    }
}

#[test]
fn test_new_game_btype_prefill() {
    let game = Game::new(GameMode::BType, 0);
    for y in 5..20usize {
        for x in 0..10usize {
            assert_eq!(game.board.get(x, y).unwrap().value, Color::White);
        }
    }
    for y in 0..5usize {
        for x in 0..10usize {
            let v = game.board.get(x, y).unwrap().value;
            assert!(v == Color::White || v == Color::Black);
        }
    }
}

#[test]
fn test_new_game_starts_at_chosen_level() {
    let game = Game::new(GameMode::AType, 4);
    assert_eq!(game.level.number, 5);
    assert_eq!(game.level.ticks_per_drop, 41);
    assert_eq!(game.level.rows_to_pass, 50);
    assert_eq!(game.levels.len(), 5);
    assert_eq!(game.levels[0].number, 6);
    assert_eq!(game.levels[4].number, 10);
}
