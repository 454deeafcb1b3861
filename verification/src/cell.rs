//! A single cell and the transition rule that decides its next state.

use vstd::prelude::*;

verus! {

/// The state of one position of the grid.
#[derive(Clone, Copy, Debug, PartialEq, Eq, Structural)]
pub enum Cell {
    Alive,
    Dead,
}

impl Cell {
    /// The other state.
    pub open spec fn flipped(self) -> Cell {
        match self {
            Cell::Alive => Cell::Dead,
            Cell::Dead => Cell::Alive,
        }
    }

    /// The state of a cell in the next generation, given how many of its
    /// neighbors are alive now: a live cell stays alive with two or three
    /// live neighbors, a dead cell comes alive with exactly three, and every
    /// other combination is dead.
    pub open spec fn successor(self, live_neighbors: nat) -> Cell {
        if (self == Cell::Alive && (live_neighbors == 2 || live_neighbors == 3)) || (self
            == Cell::Dead && live_neighbors == 3) {
            Cell::Alive
        } else {
            Cell::Dead
        }
    }

    /// One for a live cell, zero for a dead one.
    pub open spec fn weight(self) -> nat {
        match self {
            Cell::Alive => 1,
            Cell::Dead => 0,
        }
    }

    /// Alive becomes Dead and Dead becomes Alive.
    pub fn toggled(self) -> (c: Cell)
        ensures
            c == self.flipped(),
    {
        match self {
            Cell::Alive => Cell::Dead,
            Cell::Dead => Cell::Alive,
        }
    }

    /// Applies the transition rule to one cell.
    pub fn next_state(self, live_neighbors: usize) -> (c: Cell)
        ensures
            c == self.successor(live_neighbors as nat),
    {
        match self {
            Cell::Alive => {
                if live_neighbors == 2 || live_neighbors == 3 {
                    Cell::Alive
                } else {
                    Cell::Dead
                }
            },
            Cell::Dead => {
                if live_neighbors == 3 {
                    Cell::Alive
                } else {
                    Cell::Dead
                }
            },
        }
    }
}

impl Default for Cell {
    /// A cell is dead until something makes it live.
    fn default() -> (c: Cell)
        ensures
            c == Cell::Dead,
    {
        Cell::Dead
    }
}

} // verus!
