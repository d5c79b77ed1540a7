use ttrys::level::Level;
use ttrys::piece::{Piece, Point};
use ttrys::scoring::{RowsCleared, ScoringConfig};

#[test]
fn test_level_count() {
    assert_eq!(Level::level_count(), 10);
}

#[test]
fn test_all_levels_in_order() {
    let levels = Level::all();
    assert_eq!(levels.len(), 10);
    for (i, level) in levels.iter().enumerate() {
        assert_eq!(level.number, i + 1);
        assert_eq!(level.counter, 0);
        assert_eq!(level.ticks_per_drop, 61 - 4 * (i + 1));
        assert_eq!(level.rows_to_pass, 10 * (i + 1));
    }
}

#[test]
fn test_level_three_parameters() {
    let level = Level::new(3);
    assert_eq!(level.ticks_per_drop, 49);
    assert_eq!(level.rows_to_pass, 30);
    assert_eq!(level.scoring_config.one, 120);
    assert_eq!(level.scoring_config.two, 300);
    assert_eq!(level.scoring_config.three, 900);
    assert_eq!(level.scoring_config.four, 3600);
}

#[test]
fn test_tick_signals_drop_at_cadence() {
    let mut level = Level::new(10);
    // ticks_per_drop is 21 at the fastest level
    assert_eq!(level.ticks_per_drop, 21);
    for _ in 0..20 {
        assert!(level.tick().is_none());
    }
    assert!(level.tick().is_some());
    assert_eq!(level.counter, 0);
    assert!(level.tick().is_none());
    assert_eq!(level.counter, 1);
}

#[test]
fn test_scoring_table() {
    let config = ScoringConfig::new(40, 100, 300, 1200);
    assert_eq!(config.score(&RowsCleared::Zero), 0);
    assert_eq!(config.score(&RowsCleared::One), 40);
    assert_eq!(config.score(&RowsCleared::Two), 100);
    assert_eq!(config.score(&RowsCleared::Three), 300);
    assert_eq!(config.score(&RowsCleared::Four), 1200);
}

#[test]
fn test_theme_colors_level_one() {
    let level = Level::new(1);
    let origin = Point::new(0, 0);
    assert_eq!(level.theme.piece_color(&Piece::orange_ricky(origin)), 214);
    assert_eq!(level.theme.piece_color(&Piece::blue_ricky(origin)), 12);
    assert_eq!(level.theme.piece_color(&Piece::cleveland_z(origin)), 9);
    assert_eq!(level.theme.piece_color(&Piece::rhode_island_z(origin)), 2);
    assert_eq!(level.theme.piece_color(&Piece::hero(origin)), 14);
    assert_eq!(level.theme.piece_color(&Piece::smashboy(origin)), 11);
    assert_eq!(level.theme.piece_color(&Piece::teewee(origin)), 56);
}
