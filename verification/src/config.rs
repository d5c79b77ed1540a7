//! Pre-game configuration: the chosen game mode and starting level, and the
//! small wizard state machine that collects them.

use vstd::prelude::*;
use crate::game::GameMode;

pub mod builder;

verus! {

/// What the configuration wizard produces: the board seeding mode and the
/// index of the starting level.
pub struct Config {
    pub game_mode: GameMode,
    pub initial_level: usize,
}

impl Config {
    /// A fresh wizard in its starting state.
    pub fn builder() -> (b: builder::ConfigBuilder)
        ensures
            b == builder::ConfigBuilder::initial(),
    {
        builder::ConfigBuilder::default()
    }
}

impl Default for Config {
    fn default() -> (c: Config)
        ensures
            c.game_mode == GameMode::AType,
            c.initial_level == 0,
    {
        Config { game_mode: GameMode::AType, initial_level: 0 }
    }
}

} // verus!
