//! The mathematical model of the grid: dimensions and a row-major sequence
//! of cells, with every notion the contracts need defined over coordinates.

use crate::cell::Cell;
use vstd::prelude::*;

verus! {

/// A rectangular arrangement of cells. `cells` is laid out row by row, so
/// the cell at `(row, col)` sits at index `row * width + col`.
pub struct Grid {
    pub height: nat,
    pub width: nat,
    pub cells: Seq<Cell>,
}

impl Grid {
    /// There is exactly one stored cell for every position.
    pub open spec fn wf(self) -> bool {
        self.cells.len() == self.height * self.width
    }

    /// Whether the grid is well formed and a machine can hold it: both
    /// dimensions and the number of cells are within `usize`. The view of
    /// every universe is storable.
    pub open spec fn storable(self) -> bool {
        &&& self.wf()
        &&& self.height <= usize::MAX
        &&& self.width <= usize::MAX
        &&& self.cells.len() <= usize::MAX
    }

    /// Whether `(row, col)` names a position of the grid.
    pub open spec fn in_bounds(self, row: int, col: int) -> bool {
        0 <= row < self.height && 0 <= col < self.width
    }

    /// The row-major index of `(row, col)`.
    pub open spec fn index_of(self, row: int, col: int) -> int {
        row * self.width + col
    }

    /// The state at `(row, col)`. Every position outside the grid, on any of
    /// its four sides, is Dead: the border is closed and nothing wraps round.
    pub open spec fn cell(self, row: int, col: int) -> Cell {
        if self.in_bounds(row, col) {
            self.cells[self.index_of(row, col)]
        } else {
            Cell::Dead
        }
    }

    /// One if the cell at `(row, col)` is alive, else zero.
    pub open spec fn live(self, row: int, col: int) -> nat {
        self.cell(row, col).weight()
    }

    /// How many of the eight positions around `(row, col)` hold a live cell.
    /// The position itself is not counted, and positions outside the grid
    /// count as Dead.
    pub open spec fn live_neighbors(self, row: int, col: int) -> nat {
        self.live(row - 1, col - 1) + self.live(row - 1, col) + self.live(row - 1, col + 1)
            + self.live(row, col - 1) + self.live(row, col + 1) + self.live(row + 1, col - 1)
            + self.live(row + 1, col) + self.live(row + 1, col + 1)
    }

    /// The live-neighbor count of the cell stored at `index`.
    pub open spec fn live_neighbors_at(self, index: int) -> nat {
        self.live_neighbors(index / (self.width as int), index % (self.width as int))
    }

    /// The grid of the given size in which every cell is Dead.
    pub open spec fn blank(height: nat, width: nat) -> Grid {
        Grid { height, width, cells: Seq::new(height * width, |i: int| Cell::Dead) }
    }

    /// This grid with the cell at `(row, col)` replaced by `state`.
    pub open spec fn with_cell(self, row: int, col: int, state: Cell) -> Grid
        recommends
            self.in_bounds(row, col),
    {
        Grid { cells: self.cells.update(self.index_of(row, col), state), ..self }
    }

    /// This grid with the cell at `(row, col)` flipped.
    pub open spec fn toggled(self, row: int, col: int) -> Grid
        recommends
            self.in_bounds(row, col),
    {
        self.with_cell(row, col, self.cell(row, col).flipped())
    }

    /// The next generation: a grid of the same size in which every cell is
    /// the successor of the cell now at its position, given that cell's
    /// live-neighbor count in this grid.
    pub open spec fn step(self) -> Grid {
        Grid {
            cells: Seq::new(
                self.cells.len(),
                |i: int| self.cells[i].successor(self.live_neighbors_at(i)),
            ),
            ..self
        }
    }

    /// Two characters for the cell stored at `index`: a filled square for a
    /// live cell or a hollow one for a dead cell, then a space.
    pub open spec fn glyph(self, index: int) -> Seq<char> {
        match self.cells[index] {
            Cell::Alive => seq!['\u{25a0}', ' '],
            Cell::Dead => seq!['\u{25a1}', ' '],
        }
    }

    /// The text of the first `count` stored cells: each cell's glyph, with a
    /// line break after every cell that ends a row.
    pub open spec fn text_prefix(self, count: nat) -> Seq<char>
        decreases count,
    {
        if count == 0 {
            Seq::empty()
        } else {
            let body = self.text_prefix((count - 1) as nat) + self.glyph(count - 1);
            if count % self.width == 0 {
                body + seq!['\n']
            } else {
                body
            }
        }
    }

    /// The whole grid as text, one line per row.
    pub open spec fn text(self) -> Seq<char> {
        self.text_prefix(self.cells.len())
    }
}

/// A position inside a `height` by `width` grid has a row-major index below
/// `height * width`.
pub proof fn lemma_index_in_range(height: nat, width: nat, row: int, col: int)
    requires
        0 <= row < height,
        0 <= col < width,
    ensures
        0 <= row * width + col < height * width,
{
    assert(row * width + col < height * width) by (nonlinear_arith)
        requires
            0 <= row < height,
            0 <= col < width,
    ;
    assert(0 <= row * width) by (nonlinear_arith)
        requires
            0 <= row,
            0 <= width,
    ;
}

/// Splitting a row-major index into quotient and remainder by the width
/// gives a position inside the grid, and that position's index is the one
/// split.
pub proof fn lemma_index_split(height: nat, width: nat, index: int)
    requires
        0 <= index < height * width,
    ensures
        width > 0,
        0 <= index / (width as int) < height,
        0 <= index % (width as int) < width,
        (index / (width as int)) * width + index % (width as int) == index,
{
    if width == 0 {
        assert(height * width == 0) by (nonlinear_arith)
            requires
                width == 0,
        ;
    }
    let w: int = width as int;
    vstd::arithmetic::div_mod::lemma_fundamental_div_mod(index, w);
    vstd::arithmetic::div_mod::lemma_mod_bound(index, w);
    vstd::arithmetic::div_mod::lemma_div_pos_is_pos(index, w);
    let q: int = index / w;
    assert(w * q == q * w) by (nonlinear_arith);
    if q >= height {
        assert(q * w >= height * w) by (nonlinear_arith)
            requires
                q >= height,
                w > 0,
        ;
    }
}

/// The row-major index of a position determines the position: dividing by
/// the width gives back the row, and the remainder is the column.
pub proof fn lemma_index_unique(width: nat, row: int, col: int)
    requires
        0 <= row,
        0 <= col < width,
    ensures
        (row * width + col) / (width as int) == row,
        (row * width + col) % (width as int) == col,
{
    let w: int = width as int;
    vstd::arithmetic::div_mod::lemma_fundamental_div_mod_converse(row * w + col, w, row, col);
}

} // verus!
