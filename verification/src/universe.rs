//! The executable grid.

use crate::cell::Cell;
use crate::grid::{lemma_index_in_range, lemma_index_split, lemma_index_unique, Grid};
use crate::laws::lemma_step_cell;
use crate::parallel::successors;
use vstd::prelude::*;

verus! {

/// A grid of cells whose size is fixed when it is made. Its view is the
/// [`Grid`] it stores. Every universe holds exactly `height * width` cells:
/// the type keeps this invariant, and each method restates it of the view
/// as [`Grid::storable`].
pub struct Universe {
    height: usize,
    width: usize,
    cells: Vec<Cell>,
}

impl View for Universe {
    type V = Grid;

    closed spec fn view(&self) -> Grid {
        Grid { height: self.height as nat, width: self.width as nat, cells: self.cells@ }
    }
}

impl Universe {
    #[verifier::type_invariant]
    spec fn well_formed(self) -> bool {
        self.cells@.len() == self.height * self.width
    }

    /// A universe of the given size with every cell Dead. Either dimension
    /// may be zero, which gives a grid without cells.
    pub fn new(height: usize, width: usize) -> (universe: Universe)
        requires
            height * width <= usize::MAX,
        ensures
            universe@ == Grid::blank(height as nat, width as nat),
            universe@.storable(),
    {
        let cells: Vec<Cell> = vec![Cell::Dead; width * height];
        assert(width * height == height * width) by (nonlinear_arith);
        assert(cells@ =~= Seq::new((height as nat) * (width as nat), |i: int| Cell::Dead));
        Universe { height, width, cells }
    }

    /// The number of rows.
    pub fn height(&self) -> (height: usize)
        ensures
            height == self@.height,
            self@.storable(),
    {
        proof {
            use_type_invariant(self);
            assert(self.cells@.len() == self.cells.len());
        }
        self.height
    }

    /// The number of columns.
    pub fn width(&self) -> (width: usize)
        ensures
            width == self@.width,
            self@.storable(),
    {
        proof {
            use_type_invariant(self);
            assert(self.cells@.len() == self.cells.len());
        }
        self.width
    }

    /// The stored cells, row by row.
    pub fn cells(&self) -> (cells: &Vec<Cell>)
        ensures
            cells@ == self@.cells,
            self@.storable(),
    {
        proof {
            use_type_invariant(self);
            assert(self.cells@.len() == self.cells.len());
        }
        &self.cells
    }

    /// The state at `(row, col)`, given as `pos`. Reading outside the grid is
    /// not an error: it yields Dead.
    pub fn get_cell(&self, pos: (usize, usize)) -> (cell: Cell)
        ensures
            cell == self@.cell(pos.0 as int, pos.1 as int),
            (pos.0 >= self@.height || pos.1 >= self@.width) ==> cell == Cell::Dead,
            self@.storable(),
    {
        proof {
            use_type_invariant(self);
            assert(self.cells@.len() == self.cells.len());
        }
        let (i, j) = pos;
        if i >= self.height || j >= self.width {
            Cell::Dead
        } else {
            proof {
                lemma_index_in_range(self.height as nat, self.width as nat, i as int, j as int);
            }
            self.cells[i * self.width + j]
        }
    }

    /// Flips the cell at `(row, col)`, given as `pos`, and leaves every other
    /// cell as it was. The position must lie inside the grid.
    pub fn edit_cell(&mut self, pos: (usize, usize))
        requires
            old(self)@.in_bounds(pos.0 as int, pos.1 as int),
        ensures
            final(self)@ == old(self)@.toggled(pos.0 as int, pos.1 as int),
            final(self)@.storable(),
    {
        let flipped: Cell = self.get_cell(pos).toggled();
        self.set_cell(pos, flipped);
    }

    /// Stores `cell` at `(row, col)`, given as `pos`, and leaves every other
    /// cell as it was. The position must lie inside the grid.
    pub fn set_cell(&mut self, pos: (usize, usize), cell: Cell)
        requires
            old(self)@.in_bounds(pos.0 as int, pos.1 as int),
        ensures
            final(self)@ == old(self)@.with_cell(pos.0 as int, pos.1 as int, cell),
            final(self)@.storable(),
    {
        let (i, j) = pos;
        proof {
            use_type_invariant(&*self);
            assert(self.cells@.len() == self.cells.len());
            lemma_index_in_range(self.height as nat, self.width as nat, i as int, j as int);
        }
        self.cells[i * self.width + j] = cell;
    }

    /// The `(row, col)` of the cell stored at `index`: the inverse of the
    /// row-major layout. For an index below `height * width` the position
    /// lies inside the grid and `index` is its row-major index.
    pub fn coordinates_from_linear(&self, index: usize) -> (pos: (usize, usize))
        requires
            self@.width > 0,
        ensures
            pos.0 == index / (self@.width as usize),
            pos.1 == index % (self@.width as usize),
            index < self@.height * self@.width ==> self@.in_bounds(pos.0 as int, pos.1 as int)
                && self@.index_of(pos.0 as int, pos.1 as int) == index,
            self@.storable(),
    {
        proof {
            use_type_invariant(self);
            assert(self.cells@.len() == self.cells.len());
            if index < self.height * self.width {
                lemma_index_split(self.height as nat, self.width as nat, index as int);
            }
        }
        let col: usize = index % self.width;
        let row: usize = index / self.width;
        (row, col)
    }

    /// One if the neighbor of `(i, j)` that lies `di - 1` rows down and
    /// `dj - 1` columns right is alive, else zero. A neighbor that would lie
    /// above the first row or left of the first column is not looked up: it
    /// is outside the grid and so counts as Dead, as one beyond the last row
    /// or column does.
    fn live_at(&self, i: usize, j: usize, di: usize, dj: usize) -> (n: usize)
        requires
            i < self@.height,
            j < self@.width,
            di <= 2,
            dj <= 2,
        ensures
            n == self@.live(i + di - 1, j + dj - 1),
            n <= 1,
    {
        if (i == 0 && di == 0) || (j == 0 && dj == 0) {
            return 0;
        }
        let row: usize = if di == 0 {
            i - 1
        } else {
            i + (di - 1)
        };
        let col: usize = if dj == 0 {
            j - 1
        } else {
            j + (dj - 1)
        };
        match self.get_cell((row, col)) {
            Cell::Alive => 1,
            Cell::Dead => 0,
        }
    }

    /// The number of live cells among the eight neighbors of `(i, j)`.
    fn alive_around(&self, i: usize, j: usize) -> (n: usize)
        requires
            i < self@.height,
            j < self@.width,
        ensures
            n == self@.live_neighbors(i as int, j as int),
            n <= 8,
    {
        let above: usize = self.live_at(i, j, 0, 0) + self.live_at(i, j, 0, 1) + self.live_at(
            i,
            j,
            0,
            2,
        );
        let beside: usize = self.live_at(i, j, 1, 0) + self.live_at(i, j, 1, 2);
        let below: usize = self.live_at(i, j, 2, 0) + self.live_at(i, j, 2, 1) + self.live_at(
            i,
            j,
            2,
            2,
        );
        above + beside + below
    }

    /// For every cell, in storage order, how many of its eight neighbors are
    /// alive. All counts are taken from this one generation. Neighbors
    /// outside the grid, on any side, count as Dead.
    pub fn count_alive_neighbors(&self) -> (counts: Vec<usize>)
        ensures
            counts@.len() == self@.cells.len(),
            forall|k: int|
                0 <= k < counts@.len() ==> (#[trigger] counts@[k]) == self@.live_neighbors_at(k),
            forall|row: int, col: int|
                self@.in_bounds(row, col) ==> counts@[self@.index_of(row, col)]
                    == #[trigger] self@.live_neighbors(row, col),
            self@.storable(),
    {
        proof {
            use_type_invariant(self);
            assert(self.cells@.len() == self.cells.len());
        }
        let total: usize = self.cells.len();
        let mut counter: Vec<usize> = Vec::new();
        let mut index: usize = 0;
        while index < total
            invariant
                index <= total,
                total == self@.cells.len(),
                total == self@.height * self@.width,
                counter@.len() == index,
                forall|k: int|
                    0 <= k < index ==> (#[trigger] counter@[k]) == self@.live_neighbors_at(k),
            decreases total - index,
        {
            proof {
                lemma_index_split(self@.height, self@.width, index as int);
            }
            let (i, j) = self.coordinates_from_linear(index);
            let n: usize = self.alive_around(i, j);
            counter.push(n);
            index += 1;
        }
        proof {
            assert forall|row: int, col: int| self@.in_bounds(row, col) implies counter@[self@.index_of(
                row,
                col,
            )] == #[trigger] self@.live_neighbors(row, col) by {
                lemma_index_in_range(self@.height, self@.width, row, col);
                lemma_index_unique(self@.width, row, col);
            }
        }
        counter
    }

    /// The next generation, as a new universe of the same size. Neighbor
    /// counts are all taken from this generation before any cell of the next
    /// one is decided, and this universe is left as it was.
    pub fn iterate(&mut self) -> (next: Universe)
        ensures
            next@ == old(self)@.step(),
            forall|row: int, col: int|
                old(self)@.in_bounds(row, col) ==> #[trigger] next@.cell(row, col) == old(self)@.cell(
                    row,
                    col,
                ).successor(old(self)@.live_neighbors(row, col)),
            final(self)@ == old(self)@,
            next@.storable(),
    {
        proof {
            use_type_invariant(&*self);
            assert(self.cells@.len() == self.cells.len());
        }
        let alive: Vec<usize> = self.count_alive_neighbors();
        let cells: Vec<Cell> = successors(&self.cells, &alive);
        proof {
            assert(cells@ =~= self@.step().cells);
            assert forall|row: int, col: int| self@.in_bounds(row, col) implies #[trigger] self@.step().cell(
                row,
                col,
            ) == self@.cell(row, col).successor(self@.live_neighbors(row, col)) by {
                lemma_step_cell(self@, row, col);
            }
        }
        Universe { height: self.height, width: self.width, cells }
    }

    /// The grid as text, for diagnostics: cells in storage order, a filled
    /// square and a space for a live cell, a hollow square and a space for a
    /// dead one, and a line break after the last cell of every row.
    pub fn render(&self) -> (text: String)
        ensures
            text@ == self@.text(),
            self@.storable(),
    {
        proof {
            use_type_invariant(self);
            assert(self.cells@.len() == self.cells.len());
        }
        let total: usize = self.cells.len();
        let mut out = String::new();
        let mut index: usize = 0;
        while index < total
            invariant
                index <= total,
                total == self@.cells.len(),
                total == self@.height * self@.width,
                out@ == self@.text_prefix(index as nat),
            decreases total - index,
        {
            proof {
                lemma_index_split(self@.height, self@.width, index as int);
                reveal_strlit("\u{25a0} ");
                reveal_strlit("\u{25a1} ");
                reveal_strlit("\n");
            }
            let ghost before = out@;
            match self.cells[index] {
                Cell::Alive => out.append("\u{25a0} "),
                Cell::Dead => out.append("\u{25a1} "),
            }
            assert(out@ =~= before + self@.glyph(index as int));
            if (index + 1) % self.width == 0 {
                out.append("\n");
                assert(out@ =~= before + self@.glyph(index as int) + seq!['\n']);
            }
            index += 1;
        }
        out
    }
}

} // verus!
