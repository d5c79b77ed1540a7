//! Per-level scoring table: a fixed reward for clearing one to four rows at
//! once; clearing nothing scores nothing.

use vstd::prelude::*;

verus! {

/// How many rows a single placement cleared. The engine never clears more
/// than four rows at once, the height of a single piece.
#[derive(Debug, Eq, PartialEq, Clone, Copy, Structural)]
pub enum RowsCleared {
    Zero,
    One,
    Two,
    Three,
    Four,
}

/// The number of rows a `RowsCleared` value stands for.
pub open spec fn rows_cleared_count(r: RowsCleared) -> int {
    match r {
        RowsCleared::Zero => 0,
        RowsCleared::One => 1,
        RowsCleared::Two => 2,
        RowsCleared::Three => 3,
        RowsCleared::Four => 4,
    }
}

#[derive(Debug, Eq, PartialEq, Clone, Copy, Structural)]
pub struct ScoringConfig {
    pub one: usize,
    pub two: usize,
    pub three: usize,
    pub four: usize,
}

impl ScoringConfig {
    /// The reward the table assigns to a clear count.
    pub open spec fn spec_score(self, rows: RowsCleared) -> usize {
        match rows {
            RowsCleared::Zero => 0,
            RowsCleared::One => self.one,
            RowsCleared::Two => self.two,
            RowsCleared::Three => self.three,
            RowsCleared::Four => self.four,
        }
    }

    pub fn new(one: usize, two: usize, three: usize, four: usize) -> (c: Self)
        ensures
            c == (ScoringConfig { one, two, three, four }),
    {
        Self { one, two, three, four }
    }

    pub fn score(&self, rows_cleared: &RowsCleared) -> (s: usize)
        ensures
            s == self.spec_score(*rows_cleared),
    {
        match rows_cleared {
            RowsCleared::Zero => 0,
            RowsCleared::One => self.one,
            RowsCleared::Two => self.two,
            RowsCleared::Three => self.three,
            RowsCleared::Four => self.four,
        }
    }
}

} // verus!
