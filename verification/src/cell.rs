//! The state of one grid position and the rule by which it changes.

use vstd::prelude::*;

verus! {

/// The state of one position of the grid.
#[derive(Clone, Copy, Debug, PartialEq, Eq, Structural)]
pub enum Cell {
    Dead,
    Alive,
}

impl Cell {
    /// What this cell adds to a count of live cells: 1 when alive, 0 when
    /// dead.
    pub open spec fn population(self) -> int {
        match self {
            Cell::Dead => 0,
            Cell::Alive => 1,
        }
    }

    /// The character that stands for this cell in the textual form of a grid.
    pub open spec fn glyph(self) -> char {
        match self {
            Cell::Dead => '◻',
            Cell::Alive => '◼',
        }
    }

    /// The state of a cell in the next generation, given how many of its
    /// eight neighbours are alive now: a cell is alive next exactly when it
    /// has three live neighbours, or is alive and has two.
    pub open spec fn spec_next_state(self, live_neighbors: int) -> Cell {
        if live_neighbors == 3 || (live_neighbors == 2 && self == Cell::Alive) {
            Cell::Alive
        } else {
            Cell::Dead
        }
    }

    /// The text, of one character, that stands for this cell.
    pub fn symbol(self) -> (text: &'static str)
        ensures
            text@ == seq![self.glyph()],
    {
        match self {
            Cell::Dead => {
                proof {
                    reveal_strlit("◻");
                }
                assert("◻"@ =~= seq!['◻']);
                "◻"
            },
            Cell::Alive => {
                proof {
                    reveal_strlit("◼");
                }
                assert("◼"@ =~= seq!['◼']);
                "◼"
            },
        }
    }

    /// Applies the transition rule to one cell.
    pub fn next_state(self, live_neighbors: u8) -> (next: Cell)
        ensures
            next == self.spec_next_state(live_neighbors as int),
    {
        match self {
            Cell::Alive => {
                if live_neighbors < 2 {
                    // Underpopulation.
                    Cell::Dead
                } else if live_neighbors == 2 || live_neighbors == 3 {
                    // Survival.
                    Cell::Alive
                } else {
                    // Overpopulation.
                    Cell::Dead
                }
            },
            Cell::Dead => {
                if live_neighbors == 3 {
                    // Reproduction.
                    Cell::Alive
                } else {
                    Cell::Dead
                }
            },
        }
    }
}

} // verus!
