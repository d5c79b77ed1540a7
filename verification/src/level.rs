//! Difficulty levels: each level carries its drop cadence, the cumulative
//! row threshold that passes it, its scoring table and its color theme.

use vstd::prelude::*;
use crate::piece::{Piece, Shape};
use crate::scoring::ScoringConfig;

verus! {

/// How many levels the game has.
pub const NUM_LEVELS: usize = 10;

/// The slowest drop cadence; each level is four ticks faster than the one
/// before it.
pub const MAX_TICKS_PER_DROP: usize = 61;

/// Per-level mapping from a piece's shape to its display color index.
#[derive(Debug, Eq, PartialEq, Clone, Copy, Structural)]
pub struct Theme {
    pub orange_ricky: u8,
    pub blue_ricky: u8,
    pub cleveland_z: u8,
    pub rhode_island_z: u8,
    pub hero: u8,
    pub smashboy: u8,
    pub teewee: u8,
}

/// The fixed color theme of level `number` (counted from 1).
pub open spec fn theme_of(number: int) -> Theme {
    if number == 1 {
        Theme {
            orange_ricky: 214,
            blue_ricky: 12,
            cleveland_z: 9,
            rhode_island_z: 2,
            hero: 14,
            smashboy: 11,
            teewee: 56,
        }
    } else if number == 2 {
        Theme {
            orange_ricky: 166,
            blue_ricky: 61,
            cleveland_z: 88,
            rhode_island_z: 64,
            hero: 39,
            smashboy: 227,
            teewee: 57,
        }
    } else if number == 3 {
        Theme {
            orange_ricky: 172,
            blue_ricky: 69,
            cleveland_z: 160,
            rhode_island_z: 76,
            hero: 45,
            smashboy: 229,
            teewee: 53,
        }
    } else if number == 4 {
        Theme {
            orange_ricky: 178,
            blue_ricky: 27,
            cleveland_z: 161,
            rhode_island_z: 78,
            hero: 41,
            smashboy: 227,
            teewee: 55,
        }
    } else if number == 5 {
        Theme {
            orange_ricky: 167,
            blue_ricky: 20,
            cleveland_z: 124,
            rhode_island_z: 71,
            hero: 51,
            smashboy: 220,
            teewee: 52,
        }
    } else if number == 6 {
        Theme {
            orange_ricky: 215,
            blue_ricky: 153,
            cleveland_z: 163,
            rhode_island_z: 34,
            hero: 44,
            smashboy: 184,
            teewee: 99,
        }
    } else if number == 7 {
        Theme {
            orange_ricky: 130,
            blue_ricky: 62,
            cleveland_z: 196,
            rhode_island_z: 10,
            hero: 50,
            smashboy: 190,
            teewee: 92,
        }
    } else if number == 8 {
        Theme {
            orange_ricky: 58,
            blue_ricky: 61,
            cleveland_z: 52,
            rhode_island_z: 65,
            hero: 75,
            smashboy: 101,
            teewee: 96,
        }
    } else if number == 9 {
        Theme {
            orange_ricky: 136,
            blue_ricky: 67,
            cleveland_z: 125,
            rhode_island_z: 119,
            hero: 123,
            smashboy: 185,
            teewee: 183,
        }
    } else {
        Theme {
            orange_ricky: 179,
            blue_ricky: 147,
            cleveland_z: 162,
            rhode_island_z: 144,
            hero: 195,
            smashboy: 230,
            teewee: 225,
        }
    }
}

impl Theme {
    /// The color index the theme assigns to a shape.
    pub open spec fn spec_piece_color(self, shape: Shape) -> u8 {
        match shape {
            Shape::OrangeRicky => self.orange_ricky,
            Shape::BlueRicky => self.blue_ricky,
            Shape::ClevelandZ => self.cleveland_z,
            Shape::RhodeIslandZ => self.rhode_island_z,
            Shape::Hero => self.hero,
            Shape::Smashboy => self.smashboy,
            Shape::Teewee => self.teewee,
        }
    }

    pub fn piece_color(&self, piece: &Piece) -> (c: u8)
        ensures
            c == self.spec_piece_color(piece.shape),
    {
        match piece.shape {
            Shape::OrangeRicky => self.orange_ricky,
            Shape::BlueRicky => self.blue_ricky,
            Shape::ClevelandZ => self.cleveland_z,
            Shape::RhodeIslandZ => self.rhode_island_z,
            Shape::Hero => self.hero,
            Shape::Smashboy => self.smashboy,
            Shape::Teewee => self.teewee,
        }
    }
}

/// One difficulty level. `counter` is the running tick count since the last
/// automatic descent.
#[derive(Debug, Eq, PartialEq, Clone, Copy, Structural)]
pub struct Level {
    pub ticks_per_drop: usize,
    pub counter: usize,
    pub scoring_config: ScoringConfig,
    pub rows_to_pass: usize,
    pub number: usize,
    pub theme: Theme,
}

/// The fixed parameters of level `number` (counted from 1), tick counter at
/// zero.
pub open spec fn level_spec(number: int) -> Level {
    Level {
        number: number as usize,
        ticks_per_drop: (MAX_TICKS_PER_DROP - 4 * number) as usize,
        counter: 0,
        rows_to_pass: (10 * number) as usize,
        scoring_config: ScoringConfig {
            one: (40 * number) as usize,
            two: (100 * number) as usize,
            three: (300 * number) as usize,
            four: (1200 * number) as usize,
        },
        theme: theme_of(number),
    }
}

impl Level {
    /// The tick counter has not yet reached the cadence, so the next tick
    /// cannot overflow it.
    pub open spec fn wf(self) -> bool {
        self.counter < self.ticks_per_drop
    }

    pub fn level_count() -> (n: usize)
        ensures
            n == NUM_LEVELS,
    {
        NUM_LEVELS
    }

    /// All levels in playing order.
    pub fn all() -> (v: Vec<Level>)
        ensures
            v@.len() == NUM_LEVELS,
            forall|i: int| 0 <= i < NUM_LEVELS ==> v@[i] == level_spec(i + 1),
    {
        let mut v: Vec<Level> = Vec::new();
        let mut i: usize = 0;
        while i < NUM_LEVELS
            invariant
                i <= NUM_LEVELS,
                v@.len() == i,
                forall|k: int| 0 <= k < i ==> v@[k] == level_spec(k + 1),
            decreases NUM_LEVELS - i,
        {
            v.push(Level::new(i + 1));
            i = i + 1;
        }
        v
    }

    pub fn new(number: usize) -> (l: Level)
        requires
            1 <= number <= NUM_LEVELS,
        ensures
            l == level_spec(number as int),
            l.wf(),
    {
        Self {
            number,
            ticks_per_drop: MAX_TICKS_PER_DROP - number * 4,
            counter: 0,
            rows_to_pass: number * 10,
            scoring_config: ScoringConfig::new(number * 40, number * 100, number * 300, number * 1200),
            theme: Self::theme_for(number),
        }
    }

    /// The theme table as executable code.
    fn theme_for(number: usize) -> (t: Theme)
        requires
            1 <= number <= NUM_LEVELS,
        ensures
            t == theme_of(number as int),
    {
        if number == 1 {
            Theme {
                orange_ricky: 214,
                blue_ricky: 12,
                cleveland_z: 9,
                rhode_island_z: 2,
                hero: 14,
                smashboy: 11,
                teewee: 56,
            }
        } else if number == 2 {
            Theme {
                orange_ricky: 166,
                blue_ricky: 61,
                cleveland_z: 88,
                rhode_island_z: 64,
                hero: 39,
                smashboy: 227,
                teewee: 57,
            }
        } else if number == 3 {
            Theme {
                orange_ricky: 172,
                blue_ricky: 69,
                cleveland_z: 160,
                rhode_island_z: 76,
                hero: 45,
                smashboy: 229,
                teewee: 53,
            }
        } else if number == 4 {
            Theme {
                orange_ricky: 178,
                blue_ricky: 27,
                cleveland_z: 161,
                rhode_island_z: 78,
                hero: 41,
                smashboy: 227,
                teewee: 55,
            }
        } else if number == 5 {
            Theme {
                orange_ricky: 167,
                blue_ricky: 20,
                cleveland_z: 124,
                rhode_island_z: 71,
                hero: 51,
                smashboy: 220,
                teewee: 52,
            }
        } else if number == 6 {
            Theme {
                orange_ricky: 215,
                blue_ricky: 153,
                cleveland_z: 163,
                rhode_island_z: 34,
                hero: 44,
                smashboy: 184,
                teewee: 99,
            }
        } else if number == 7 {
            Theme {
                orange_ricky: 130,
                blue_ricky: 62,
                cleveland_z: 196,
                rhode_island_z: 10,
                hero: 50,
                smashboy: 190,
                teewee: 92,
            }
        } else if number == 8 {
            Theme {
                orange_ricky: 58,
                blue_ricky: 61,
                cleveland_z: 52,
                rhode_island_z: 65,
                hero: 75,
                smashboy: 101,
                teewee: 96,
            }
        } else if number == 9 {
            Theme {
                orange_ricky: 136,
                blue_ricky: 67,
                cleveland_z: 125,
                rhode_island_z: 119,
                hero: 123,
                smashboy: 185,
                teewee: 183,
            }
        } else {
            Theme {
                orange_ricky: 179,
                blue_ricky: 147,
                cleveland_z: 162,
                rhode_island_z: 144,
                hero: 195,
                smashboy: 230,
                teewee: 225,
            }
        }
    }

    /// Advances the tick counter; reports `Some` and resets the counter
    /// exactly when the cadence is reached, which is when a piece should
    /// drop one row.
    pub fn tick(&mut self) -> (r: Option<()>)
        requires
            old(self).wf(),
        ensures
            final(self).wf(),
            *final(self) == (Level { counter: final(self).counter, ..*old(self) }),
            old(self).counter + 1 < old(self).ticks_per_drop ==> r is None && final(self).counter
                == old(self).counter + 1,
            old(self).counter + 1 >= old(self).ticks_per_drop ==> r is Some
                && final(self).counter == 0,
    {
        self.counter = self.counter + 1;
        if self.counter < self.ticks_per_drop {
            None
        } else {
            self.counter = 0;
            Some(())
        }
    }
}

} // verus!
